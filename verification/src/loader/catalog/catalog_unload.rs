//! Swapping an archive group out of the catalog, and putting it back.

use vstd::prelude::*;
use vstd::string::*;

use crate::content_hash::{hash_text, ContentHash};
use crate::error::{is_load_error, load_error, EngineError};
use crate::loader::catalog::{
    is_unknown_version, CatalogEntry, CatalogView, GroupView, PackageGroup, VersionKey,
    WorkflowCatalog,
};
use crate::table::{lemma_entry_map, position_of};
use crate::text::{concat5, texts};

verus! {

/// A version swapped out of the catalog during unload verification.
#[derive(Debug, PartialEq, Eq)]
pub struct RemovedPackage {
    /// Primary type used as the durable package-record key.
    pub primary_workflow_type: String,
    /// Content hash of the version.
    pub version: ContentHash,
    /// Every workflow type of the archive group with its entry.
    pub entries: Vec<(String, CatalogEntry)>,
    /// Deployed module names that belonged to the version alone.
    pub modules: Vec<String>,
}

impl RemovedPackage {
    /// Every entry stands beside the type of its workflow, and has the version.
    pub open spec fn wf(&self) -> bool {
        forall|i: int|
            0 <= i < self.entries@.len() ==> {
                &&& (#[trigger] self.entries@[i]).1.workflow@.workflow_type
                    == self.entries@[i].0@
                &&& self.entries@[i].1.workflow@.version == self.version
            }
    }
}

/// The workflow types of removed entries.
pub open spec fn entry_types(entries: Seq<(String, CatalogEntry)>) -> Seq<Seq<char>> {
    entries.map_values(|entry: (String, CatalogEntry)| entry.0@)
}

/// A group is kept under a key, has the version, and counts the type as a member.
pub open spec fn holds_group(
    catalog: CatalogView,
    key: (Seq<char>, ContentHash),
    workflow_type: Seq<char>,
    version: ContentHash,
) -> bool {
    &&& catalog.groups.contains_key(key)
    &&& key.1 == version
    &&& catalog.groups[key].members.contains(workflow_type)
}

/// A workflow type is routed at a version.
pub open spec fn routes(catalog: CatalogView, workflow_type: Seq<char>, version: ContentHash) -> bool {
    catalog.routed.contains_key(workflow_type) && catalog.routed[workflow_type] == version
}

/// A member of a group has no entry of its own at the version.
pub open spec fn member_missing(
    catalog: CatalogView,
    members: Seq<Seq<char>>,
    version: ContentHash,
    i: int,
) -> bool {
    !catalog.by_version.contains_key((members[i], version)) || exists|j: int|
        0 <= j < i && #[trigger] members[j] == members[i]
}

/// The loaded versions without the members of a group.
pub open spec fn without_members(
    by_version: Map<(Seq<char>, ContentHash), CatalogEntry>,
    members: Seq<Seq<char>>,
    version: ContentHash,
) -> Map<(Seq<char>, ContentHash), CatalogEntry> {
    Map::new(
        |key: (Seq<char>, ContentHash)|
            by_version.contains_key(key) && !(key.1 == version && members.contains(key.0)),
        |key: (Seq<char>, ContentHash)| by_version[key],
    )
}

/// The loaded versions with entries put in.
pub open spec fn with_members(
    by_version: Map<(Seq<char>, ContentHash), CatalogEntry>,
    entries: Seq<(String, CatalogEntry)>,
    version: ContentHash,
) -> Map<(Seq<char>, ContentHash), CatalogEntry>
    decreases entries.len(),
{
    if entries.len() == 0 {
        by_version
    } else {
        with_members(by_version, entries.drop_last(), version).insert(
            (entries.last().0@, version),
            entries.last().1,
        )
    }
}

/// The deployed modules of other versions.
pub open spec fn without_version(
    modules: Map<Seq<char>, ContentHash>,
    version: ContentHash,
) -> Map<Seq<char>, ContentHash> {
    Map::new(
        |name: Seq<char>| modules.contains_key(name) && modules[name] != version,
        |name: Seq<char>| modules[name],
    )
}

/// The deployed modules with names put in for a version.
pub open spec fn with_modules(
    modules: Map<Seq<char>, ContentHash>,
    names: Seq<Seq<char>>,
    version: ContentHash,
) -> Map<Seq<char>, ContentHash> {
    Map::new(
        |name: Seq<char>| modules.contains_key(name) || names.contains(name),
        |name: Seq<char>|
            if names.contains(name) {
                version
            } else {
                modules[name]
            },
    )
}

/// Some group has the version.
pub open spec fn version_referenced(
    groups: Map<(Seq<char>, ContentHash), GroupView>,
    version: ContentHash,
) -> bool {
    exists|key: (Seq<char>, ContentHash)| #[trigger] groups.contains_key(key) && key.1 == version
}

/// The catalog without a group: its entries are gone, and so are the modules of its
/// version where no other group shares it.
pub open spec fn swapped_out(
    catalog: CatalogView,
    group: GroupView,
    version: ContentHash,
) -> CatalogView {
    let groups = catalog.groups.remove((group.primary, version));
    CatalogView {
        by_version: without_members(catalog.by_version, group.members, version),
        modules: if version_referenced(groups, version) {
            catalog.modules
        } else {
            without_version(catalog.modules, version)
        },
        groups,
        ..catalog
    }
}

/// What is taken out of the catalog with a group.
pub open spec fn takes_out(
    catalog: CatalogView,
    group: GroupView,
    version: ContentHash,
    removed: RemovedPackage,
) -> bool {
    &&& removed.primary_workflow_type@ == group.primary
    &&& removed.version == version
    &&& entry_types(removed.entries@) == group.members
    &&& forall|i: int|
        0 <= i < removed.entries@.len() ==> catalog.by_version.contains_key(
            (group.members[i], version),
        ) && (#[trigger] removed.entries@[i]).1 == catalog.by_version[(group.members[i], version)]
    &&& texts(removed.modules@).no_duplicates()
    &&& forall|name: Seq<char>|
        texts(removed.modules@).contains(name) <==> #[trigger] catalog.modules.contains_key(name)
            && !swapped_out(catalog, group, version).modules.contains_key(name)
}

/// Why a group cannot be swapped out: a member is routed at the version, or a member
/// has no entry.
pub open spec fn refuses_group(
    catalog: CatalogView,
    group: GroupView,
    version: ContentHash,
    error: EngineError,
) -> bool {
    ||| exists|i: int|
        {
            &&& 0 <= i < group.members.len()
            &&& #[trigger] routes(catalog, group.members[i], version)
            &&& forall|j: int|
                0 <= j < i ==> !routes(catalog, #[trigger] group.members[j], version)
            &&& error matches EngineError::RouteActive { workflow_type, version: active }
                && workflow_type@ == group.members[i] && active == version
        }
    ||| {
        &&& forall|j: int|
            0 <= j < group.members.len() ==> !routes(
                catalog,
                #[trigger] group.members[j],
                version,
            )
        &&& exists|i: int|
            {
                &&& 0 <= i < group.members.len()
                &&& #[trigger] member_missing(catalog, group.members, version, i)
                &&& forall|j: int|
                    0 <= j < i ==> !#[trigger] member_missing(
                        catalog,
                        group.members,
                        version,
                        j,
                    )
                &&& is_load_error(
                    error,
                    "package group `"@ + hash_text(version)
                        + "` is partially registered: missing `"@ + group.members[i] + "`"@,
                )
            }
    }
}

/// A loaded version is swapped out with the whole group that it belongs to: no member of
/// the group is routed at the version, and none is missing.
pub open spec fn swaps_out(
    catalog: CatalogView,
    workflow_type: Seq<char>,
    version: ContentHash,
    removed: RemovedPackage,
    after: CatalogView,
) -> bool {
    &&& catalog.by_version.contains_key((workflow_type, version))
    &&& exists|key: (Seq<char>, ContentHash)|
        {
            let group = catalog.groups[key];
            &&& #[trigger] holds_group(catalog, key, workflow_type, version)
            &&& forall|j: int|
                0 <= j < group.members.len() ==> !routes(
                    catalog,
                    #[trigger] group.members[j],
                    version,
                )
            &&& forall|j: int|
                0 <= j < group.members.len() ==> !#[trigger] member_missing(
                    catalog,
                    group.members,
                    version,
                    j,
                )
            &&& takes_out(catalog, group, version, removed)
            &&& after == swapped_out(catalog, group, version)
        }
}

/// Why a version cannot be swapped out: it is not loaded, its group is missing, or its
/// group cannot be taken out.
pub open spec fn refuses_swap(
    catalog: CatalogView,
    workflow_type: Seq<char>,
    version: ContentHash,
    error: EngineError,
) -> bool {
    if !catalog.by_version.contains_key((workflow_type, version)) {
        is_unknown_version(error, catalog, workflow_type, version)
    } else {
        ||| {
            &&& forall|key: (Seq<char>, ContentHash)|
                !#[trigger] holds_group(catalog, key, workflow_type, version)
            &&& is_load_error(
                error,
                "package group for workflow `"@ + workflow_type + "` version `"@ + hash_text(version)
                    + "` is missing"@,
            )
        }
        ||| exists|key: (Seq<char>, ContentHash)|
            {
                &&& #[trigger] holds_group(catalog, key, workflow_type, version)
                &&& refuses_group(catalog, catalog.groups[key], version, error)
            }
    }
}

/// The catalog with a removed group put back.
pub open spec fn restored(catalog: CatalogView, removed: RemovedPackage) -> CatalogView {
    CatalogView {
        by_version: with_members(catalog.by_version, removed.entries@, removed.version),
        modules: with_modules(catalog.modules, texts(removed.modules@), removed.version),
        groups: catalog.groups.insert(
            (removed.primary_workflow_type@, removed.version),
            GroupView {
                primary: removed.primary_workflow_type@,
                members: entry_types(removed.entries@),
            },
        ),
        ..catalog
    }
}

/// Whether a list of texts holds one.
pub(crate) fn holds_text(all: &Vec<String>, text: &String) -> (holds: bool)
    ensures
        holds == texts(all@).contains(text@),
{
    let mut i: usize = 0;
    while i < all.len()
        invariant
            0 <= i <= all@.len(),
            forall|j: int| 0 <= j < i ==> (#[trigger] all@[j])@ != text@,
        decreases all.len() - i,
    {
        if all[i] == *text {
            proof {
                assert(texts(all@)[i as int] == text@);
            }
            return true;
        }
        i = i + 1;
    }
    proof {
        if texts(all@).contains(text@) {
            let j = choose|j: int| 0 <= j < texts(all@).len() && texts(all@)[j] == text@;
            assert(all@[j]@ == text@);
        }
    }
    false
}

/// Copies a list of texts.
pub(crate) fn clone_texts(all: &Vec<String>) -> (copy: Vec<String>)
    ensures
        copy@ == all@,
{
    let mut copy: Vec<String> = Vec::new();
    let mut i: usize = 0;
    while i < all.len()
        invariant
            0 <= i <= all@.len(),
            copy@ == all@.take(i as int),
        decreases all.len() - i,
    {
        copy.push(all[i].clone());
        proof {
            assert(copy@ =~= all@.take(i + 1));
        }
        i = i + 1;
    }
    proof {
        assert(all@.take(i as int) =~= all@);
    }
    copy
}

/// Membership in a longer prefix.
pub proof fn lemma_take_contains(all: Seq<Seq<char>>, i: int, text: Seq<char>)
    requires
        0 <= i < all.len(),
    ensures
        all.take(i + 1).contains(text) <==> (all.take(i).contains(text) || text == all[i]),
{
    if all.take(i).contains(text) {
        let k = choose|k: int| 0 <= k < i && all.take(i)[k] == text;
        assert(all.take(i + 1)[k] == text);
    }
    if text == all[i] {
        assert(all.take(i + 1)[i] == text);
    }
    if all.take(i + 1).contains(text) && text != all[i] {
        let longer = all.take(i + 1);
        let k = choose|k: int| 0 <= k < longer.len() && longer[k] == text;
        assert(all.take(i)[k] == text);
    }
}

impl WorkflowCatalog {
    /// The group that counts a type as a member at a version.
    fn find_group(&self, workflow_type: &String, version: &ContentHash) -> (found: Option<usize>)
        requires
            self.wf(),
        ensures
            match found {
                Some(i) => {
                    &&& i < self.package_groups.entries().len()
                    &&& holds_group(
                        self@,
                        self.package_groups.entries()[i as int].0@,
                        workflow_type@,
                        *version,
                    )
                    &&& self@.groups[self.package_groups.entries()[i as int].0@]
                        == self.package_groups.entries()[i as int].1@
                },
                None => forall|key: (Seq<char>, ContentHash)|
                    !#[trigger] holds_group(self@, key, workflow_type@, *version),
            },
    {
        let ghost entries = self.package_groups.entries();
        proof {
            lemma_entry_map(entries);
        }
        let mut i: usize = 0;
        while i < self.package_groups.len()
            invariant
                self.wf(),
                entries == self.package_groups.entries(),
                0 <= i <= entries.len(),
                forall|j: int|
                    0 <= j < i ==> !((#[trigger] entries[j]).0.version == *version && texts(
                        entries[j].1.workflow_types@,
                    ).contains(workflow_type@)),
            decreases entries.len() - i,
        {
            let entry = self.package_groups.entry(i);
            if entry.0.version.same(version) && holds_text(&entry.1.workflow_types, workflow_type) {
                proof {
                    lemma_entry_map(entries);
                    assert(self.package_groups@.contains_key(entries[i as int].0@));
                }
                return Some(i);
            }
            i = i + 1;
        }
        proof {
            assert forall|key: (Seq<char>, ContentHash)|
                !#[trigger] holds_group(self@, key, workflow_type@, *version) by {
                if holds_group(self@, key, workflow_type@, *version) {
                    assert(self.package_groups@.contains_key(key));
                    let p = position_of(entries, key);
                    assert(entries[p].0@ == key);
                    assert(self@.groups[key] == entries[p].1@);
                }
            }
        }
        None
    }

    /// The first member that is routed at a version.
    fn first_routed_member(&self, members: &Vec<String>, version: &ContentHash) -> (found: Option<
        usize,
    >)
        requires
            self.wf(),
        ensures
            match found {
                Some(i) => {
                    &&& i < members@.len()
                    &&& routes(self@, texts(members@)[i as int], *version)
                    &&& forall|j: int|
                        0 <= j < i ==> !routes(self@, #[trigger] texts(members@)[j], *version)
                },
                None => forall|j: int|
                    0 <= j < members@.len() ==> !routes(
                        self@,
                        #[trigger] texts(members@)[j],
                        *version,
                    ),
            },
    {
        let mut i: usize = 0;
        while i < members.len()
            invariant
                self.wf(),
                0 <= i <= members@.len(),
                forall|j: int|
                    0 <= j < i ==> !routes(self@, #[trigger] texts(members@)[j], *version),
            decreases members.len() - i,
        {
            assert(texts(members@)[i as int] == members@[i as int]@);
            match self.routed.get(&members[i]) {
                Some(active) => {
                    if active.same(version) {
                        return Some(i);
                    }
                },
                None => {},
            }
            i = i + 1;
        }
        None
    }

    /// The first member that has no entry of its own at a version.
    fn first_missing_member(&self, members: &Vec<String>, version: &ContentHash) -> (found: Option<
        usize,
    >)
        requires
            self.wf(),
        ensures
            match found {
                Some(i) => {
                    &&& i < members@.len()
                    &&& member_missing(self@, texts(members@), *version, i as int)
                    &&& forall|j: int|
                        0 <= j < i ==> !#[trigger] member_missing(
                            self@,
                            texts(members@),
                            *version,
                            j,
                        )
                },
                None => forall|j: int|
                    0 <= j < members@.len() ==> !#[trigger] member_missing(
                        self@,
                        texts(members@),
                        *version,
                        j,
                    ),
            },
    {
        let ghost names = texts(members@);
        let mut i: usize = 0;
        while i < members.len()
            invariant
                self.wf(),
                names == texts(members@),
                0 <= i <= members@.len(),
                forall|j: int| 0 <= j < i ==> !#[trigger] member_missing(self@, names, *version, j),
            decreases members.len() - i,
        {
            assert(names[i as int] == members@[i as int]@);
            if !self.is_loaded(members[i].as_str(), version) {
                return Some(i);
            }
            let mut k: usize = 0;
            while k < i
                invariant
                    names == texts(members@),
                    0 <= k <= i < members@.len(),
                    names[i as int] == members@[i as int]@,
                    forall|j: int| 0 <= j < k ==> #[trigger] names[j] != names[i as int],
                    forall|j: int|
                        0 <= j < i ==> !#[trigger] member_missing(self@, names, *version, j),
                decreases i - k,
            {
                assert(names[k as int] == members@[k as int]@);
                if members[k] == members[i] {
                    assert(member_missing(self@, names, *version, i as int));
                    return Some(i);
                }
                k = k + 1;
            }
            i = i + 1;
        }
        None
    }

    /// Takes the entries of a group out of the catalog.
    fn take_entries(&mut self, members: &Vec<String>, version: &ContentHash) -> (entries: Vec<
        (String, CatalogEntry),
    >)
        requires
            old(self).wf(),
            forall|j: int|
                0 <= j < members@.len() ==> !#[trigger] member_missing(
                    old(self)@,
                    texts(members@),
                    *version,
                    j,
                ),
        ensures
            final(self).wf(),
            final(self)@ == (CatalogView {
                by_version: without_members(old(self)@.by_version, texts(members@), *version),
                ..old(self)@
            }),
            final(self).package_groups == old(self).package_groups,
            entry_types(entries@) == texts(members@),
            forall|i: int|
                0 <= i < entries@.len() ==> old(self)@.by_version.contains_key(
                    (texts(members@)[i], *version),
                ) && (#[trigger] entries@[i]).1 == old(self)@.by_version[(
                    texts(members@)[i],
                    *version,
                )],
    {
        let ghost names = texts(members@);
        let ghost before = self@;
        let mut entries: Vec<(String, CatalogEntry)> = Vec::new();
        let mut i: usize = 0;
        proof {
            assert(without_members(before.by_version, names.take(0), *version)
                =~= before.by_version);
            assert(entry_types(entries@) =~= names.take(0));
        }
        while i < members.len()
            invariant
                self.wf(),
                names == texts(members@),
                before == old(self)@,
                0 <= i <= members@.len(),
                self@.by_version == without_members(before.by_version, names.take(i as int), *version),
                self@ == (CatalogView { by_version: self@.by_version, ..before }),
                self.package_groups == old(self).package_groups,
                entry_types(entries@) == names.take(i as int),
                entries@.len() == i,
                forall|j: int|
                    0 <= j < members@.len() ==> !#[trigger] member_missing(
                        before,
                        names,
                        *version,
                        j,
                    ),
                forall|j: int|
                    0 <= j < i ==> before.by_version.contains_key((#[trigger] names[j], *version)),
                forall|j: int|
                    0 <= j < i ==> (#[trigger] entries@[j]).1 == before.by_version[(
                        names[j],
                        *version,
                    )],
            decreases members.len() - i,
        {
            let key = VersionKey::new(members[i].as_str(), version);
            proof {
                assert(names[i as int] == members@[i as int]@);
                assert(!member_missing(before, names, *version, i as int));
                if names.take(i as int).contains(names[i as int]) {
                    let k = choose|k: int|
                        0 <= k < i && names.take(i as int)[k] == names[i as int];
                    assert(names[k] == names[i as int]);
                }
                assert forall|k: (Seq<char>, ContentHash)|
                    names.take(i + 1).contains(k.0) <==> (#[trigger] names.take(
                        i as int,
                    ).contains(k.0) || k.0 == names[i as int]) by {
                    lemma_take_contains(names, i as int, k.0);
                }
                assert(without_members(before.by_version, names.take(i + 1), *version)
                    =~= without_members(before.by_version, names.take(i as int), *version).remove(
                    (names[i as int], *version),
                ));
            }
            let ghost taken = entries@;
            let entry = match self.by_version.remove(&key) {
                Some(entry) => entry,
                None => {
                    assert(false);
                    return entries;
                },
            };
            assert(entry == before.by_version[(names[i as int], *version)]);
            entries.push((members[i].clone(), entry));
            proof {
                assert(entry_types(entries@) =~= names.take(i + 1));
                assert forall|j: int| 0 <= j < i + 1 implies (#[trigger] entries@[j]).1
                    == before.by_version[(names[j], *version)] by {
                    if j < i {
                        assert(entries@[j] == taken[j]);
                    }
                }
            }
            i = i + 1;
        }
        proof {
            assert(names.take(i as int) =~= names);
        }
        entries
    }

    /// Whether some group still has a version.
    fn is_version_referenced(&self, version: &ContentHash) -> (referenced: bool)
        requires
            self.wf(),
        ensures
            referenced == version_referenced(self@.groups, *version),
    {
        let ghost entries = self.package_groups.entries();
        proof {
            lemma_entry_map(entries);
        }
        let mut i: usize = 0;
        while i < self.package_groups.len()
            invariant
                self.wf(),
                entries == self.package_groups.entries(),
                0 <= i <= entries.len(),
                forall|j: int| 0 <= j < i ==> (#[trigger] entries[j]).0.version != *version,
            decreases entries.len() - i,
        {
            if self.package_groups.entry(i).0.version.same(version) {
                proof {
                    lemma_entry_map(entries);
                    assert(self@.groups.contains_key(entries[i as int].0@));
                }
                return true;
            }
            i = i + 1;
        }
        proof {
            if version_referenced(self@.groups, *version) {
                let key = choose|key: (Seq<char>, ContentHash)| #[trigger]
                    self@.groups.contains_key(key) && key.1 == *version;
                assert(self.package_groups@.contains_key(key));
                let p = position_of(entries, key);
                assert(entries[p].0@ == key);
            }
        }
        false
    }

    /// Takes the deployed modules of a version out of the catalog.
    fn take_modules(&mut self, version: &ContentHash) -> (names: Vec<String>)
        requires
            old(self).wf(),
        ensures
            final(self).wf(),
            final(self)@ == (CatalogView {
                modules: without_version(old(self)@.modules, *version),
                ..old(self)@
            }),
            texts(names@).no_duplicates(),
            forall|name: Seq<char>|
                texts(names@).contains(name) <==> #[trigger] old(self)@.modules.contains_key(name)
                    && old(self)@.modules[name] == *version,
    {
        let mut names: Vec<String> = Vec::new();
        let ghost before = self@;
        let ghost entries = self.registered_modules.entries();
        proof {
            lemma_entry_map(entries);
        }
        let mut i: usize = 0;
        while i < self.registered_modules.len()
            invariant
                self == old(self),
                self.wf(),
                entries == self.registered_modules.entries(),
                0 <= i <= entries.len(),
                texts(names@).no_duplicates(),
                forall|name: Seq<char>| #[trigger]
                    texts(names@).contains(name) <==> exists|j: int|
                        0 <= j < i && (#[trigger] entries[j]).0@ == name && entries[j].1 == *version,
            decreases entries.len() - i,
        {
            let entry = self.registered_modules.entry(i);
            let ghost listed = names@;
            if entry.1.same(version) {
                names.push(entry.0.clone());
                proof {
                    let name = entries[i as int].0@;
                    assert(texts(names@) =~= texts(listed).push(name));
                    if texts(listed).contains(name) {
                        let j = choose|j: int|
                            0 <= j < i && (#[trigger] entries[j]).0@ == name && entries[j].1
                                == *version;
                        assert(entries[j].0@ != entries[i as int].0@);
                    }
                    assert forall|n: Seq<char>| #[trigger] texts(names@).contains(n) <==> exists|
                        j: int,
                    |
                        0 <= j < i + 1 && (#[trigger] entries[j]).0@ == n && entries[j].1
                            == *version by {
                        lemma_push_text(texts(listed), name, n);
                        if texts(listed).contains(n) {
                            let j = choose|j: int|
                                0 <= j < i && (#[trigger] entries[j]).0@ == n && entries[j].1
                                    == *version;
                            assert(entries[j].0@ == n);
                        }
                        if n == name {
                            assert(entries[i as int].0@ == n);
                        }
                    }
                }
            } else {
                proof {
                    assert forall|n: Seq<char>| #[trigger] texts(names@).contains(n) <==> exists|
                        j: int,
                    |
                        0 <= j < i + 1 && (#[trigger] entries[j]).0@ == n && entries[j].1
                            == *version by {
                        if texts(names@).contains(n) {
                            let j = choose|j: int|
                                0 <= j < i && (#[trigger] entries[j]).0@ == n && entries[j].1
                                    == *version;
                            assert(entries[j].0@ == n);
                        }
                    }
                }
            }
            i = i + 1;
        }
        proof {
            assert forall|name: Seq<char>|
                texts(names@).contains(name) <==> #[trigger] before.modules.contains_key(name)
                    && before.modules[name] == *version by {
                if texts(names@).contains(name) {
                    let j = choose|j: int|
                        0 <= j < entries.len() && (#[trigger] entries[j]).0@ == name
                            && entries[j].1 == *version;
                    assert(before.modules.contains_key(entries[j].0@));
                }
                if before.modules.contains_key(name) && before.modules[name] == *version {
                    let p = position_of(entries, name);
                    assert(entries[p].0@ == name);
                }
            }
        }
        let mut k: usize = 0;
        proof {
            assert(before.modules =~= Map::new(
                |name: Seq<char>|
                    before.modules.contains_key(name) && !texts(names@).take(0).contains(name),
                |name: Seq<char>| before.modules[name],
            ));
        }
        while k < names.len()
            invariant
                self.wf(),
                0 <= k <= names@.len(),
                before == old(self)@,
                self@.modules == Map::new(
                    |name: Seq<char>|
                        before.modules.contains_key(name) && !texts(names@).take(
                            k as int,
                        ).contains(name),
                    |name: Seq<char>| before.modules[name],
                ),
                self@ == (CatalogView { modules: self@.modules, ..before }),
            decreases names.len() - k,
        {
            let ghost all = texts(names@);
            let removed = self.registered_modules.remove(&names[k]);
            proof {
                assert(all[k as int] == names@[k as int]@);
                assert forall|name: Seq<char>|
                    all.take(k + 1).contains(name) <==> (#[trigger] all.take(k as int).contains(
                        name,
                    ) || name == all[k as int]) by {
                    lemma_take_contains(all, k as int, name);
                }
                assert(self@.modules =~= Map::new(
                    |name: Seq<char>|
                        before.modules.contains_key(name) && !all.take(k + 1).contains(name),
                    |name: Seq<char>| before.modules[name],
                ));
            }
            k = k + 1;
        }
        proof {
            assert(texts(names@).take(k as int) =~= texts(names@));
            assert(self@.modules =~= without_version(before.modules, *version));
        }
        names
    }

    /// Swaps an entire non-routed archive group out, so that no sibling entry remains
    /// reachable without the group's shared modules.
    ///
    /// # Errors
    ///
    /// [`EngineError::UnknownVersion`] when the version is not loaded,
    /// [`EngineError::RouteActive`] when a member of the group is routed at the
    /// version, and [`EngineError::Load`] when the group is missing or incomplete. The
    /// catalog is then unchanged.
    pub fn swap_out_package(&mut self, workflow_type: &str, version: &ContentHash) -> (result:
        Result<RemovedPackage, EngineError>)
        requires
            old(self).wf(),
        ensures
            final(self).wf(),
            match result {
                Ok(removed) => removed.wf() && swaps_out(
                    old(self)@,
                    workflow_type@,
                    *version,
                    removed,
                    final(self)@,
                ),
                Err(error) => final(self)@ == old(self)@ && refuses_swap(
                    old(self)@,
                    workflow_type@,
                    *version,
                    error,
                ),
            },
    {
        let ghost before = self@;
        if !self.is_loaded(workflow_type, version) {
            return Err(self.unknown_version(workflow_type, version));
        }
        let wanted = workflow_type.to_owned();
        let position: usize = match self.find_group(&wanted, version) {
            Some(i) => i,
            None => {
                return Err(
                    load_error(
                        concat5(
                            "package group for workflow `",
                            workflow_type,
                            "` version `",
                            version.text().as_str(),
                            "` is missing",
                        ),
                    ),
                );
            },
        };
        let entry = self.package_groups.entry(position);
        let ghost key = entry.0@;
        let ghost group = entry.1@;
        assert(holds_group(before, key, workflow_type@, *version));
        let members = clone_texts(&entry.1.workflow_types);
        let primary = entry.1.primary_workflow_type.clone();
        assert(texts(members@) == group.members);
        match self.first_routed_member(&members, version) {
            Some(i) => {
                proof {
                    assert(routes(before, group.members[i as int], *version));
                    assert(refuses_group(
                        before,
                        group,
                        *version,
                        EngineError::RouteActive { workflow_type: members@[i as int], version: *version },
                    ));
                }
                return Err(
                    EngineError::RouteActive { workflow_type: members[i].clone(), version: *version },
                );
            },
            None => {},
        }
        match self.first_missing_member(&members, version) {
            Some(i) => {
                let error = load_error(
                    concat5(
                        "package group `",
                        version.text().as_str(),
                        "` is partially registered: missing `",
                        members[i].as_str(),
                        "`",
                    ),
                );
                proof {
                    assert(member_missing(before, group.members, *version, i as int));
                    assert(refuses_group(before, group, *version, error));
                }
                return Err(error);
            },
            None => {},
        }
        let entries = self.take_entries(&members, version);
        let group_key = VersionKey::new(primary.as_str(), version);
        let ghost groups_before = self.package_groups@;
        let removed_group = self.package_groups.remove(&group_key);
        proof {
            assert(self@.groups =~= before.groups.remove((group.primary, *version)));
        }
        let modules: Vec<String> = if self.is_version_referenced(version) {
            Vec::new()
        } else {
            self.take_modules(version)
        };
        let removed = RemovedPackage {
            primary_workflow_type: primary,
            version: *version,
            entries,
            modules,
        };
        proof {
            assert(self@ == swapped_out(before, group, *version));
            if version_referenced(before.groups.remove((group.primary, *version)), *version) {
                assert(texts(modules@) =~= Seq::empty());
            }
            assert(takes_out(before, group, *version, removed));
        }
        Ok(removed)
    }

    /// Restores a group swapped out by [`Self::swap_out_package`] after a failed
    /// unload check.
    pub fn restore_package(&mut self, removed: RemovedPackage)
        requires
            old(self).wf(),
            removed.wf(),
        ensures
            final(self).wf(),
            final(self)@ == restored(old(self)@, removed),
    {
        let ghost before = self@;
        let ghost all = removed.entries@;
        let ghost names = texts(removed.modules@);
        let version = removed.version;
        let mut members: Vec<String> = Vec::new();
        let mut entries = removed.entries;
        let ghost mut i: int = 0;
        proof {
            assert(all.take(0) =~= Seq::empty());
            assert(all.skip(0) =~= all);
            assert(texts(members@) =~= entry_types(all.take(0)));
        }
        while entries.len() > 0
            invariant
                self.wf(),
                before == old(self)@,
                0 <= i <= all.len(),
                i + entries@.len() == all.len(),
                entries@ == all.skip(i),
                forall|j: int|
                    0 <= j < all.len() ==> (#[trigger] all[j]).1.workflow@.workflow_type
                        == all[j].0@ && all[j].1.workflow@.version == version,
                self@.by_version == with_members(before.by_version, all.take(i), version),
                self@ == (CatalogView { by_version: self@.by_version, ..before }),
                self.package_groups == old(self).package_groups,
                texts(members@) == entry_types(all.take(i)),
            decreases entries@.len(),
        {
            let entry = entries.remove(0);
            proof {
                assert(entry == all[i]);
                assert(all.take(i + 1).drop_last() =~= all.take(i));
                assert(entries@ =~= all.skip(i + 1));
            }
            let ghost listed = members@;
            let key = VersionKey::new(entry.0.as_str(), &version);
            self.by_version.insert(key, entry.1);
            members.push(entry.0);
            proof {
                assert(entry_types(all.take(i + 1)) =~= entry_types(all.take(i)).push(entry.0@));
                assert(texts(members@) =~= texts(listed).push(entry.0@));
                i = i + 1;
            }
        }
        proof {
            assert(all.take(i) =~= all);
        }
        let mut k: usize = 0;
        proof {
            assert(before.modules =~= with_modules(before.modules, names.take(0), version));
        }
        while k < removed.modules.len()
            invariant
                self.wf(),
                before == old(self)@,
                0 <= k <= removed.modules@.len(),
                names == texts(removed.modules@),
                self@.modules == with_modules(before.modules, names.take(k as int), version),
                self@ == (CatalogView {
                    modules: self@.modules,
                    by_version: with_members(before.by_version, all, version),
                    ..before
                }),
                self.package_groups == old(self).package_groups,
            decreases removed.modules.len() - k,
        {
            self.registered_modules.insert(removed.modules[k].clone(), version);
            proof {
                assert(names[k as int] == removed.modules@[k as int]@);
                assert forall|name: Seq<char>|
                    names.take(k + 1).contains(name) <==> (#[trigger] names.take(k as int).contains(
                        name,
                    ) || name == names[k as int]) by {
                    lemma_take_contains(names, k as int, name);
                }
                let listed = with_modules(before.modules, names.take(k as int), version);
                let longer = with_modules(before.modules, names.take(k + 1), version);
                assert(self@.modules == listed.insert(names[k as int], version));
                assert forall|name: Seq<char>| longer.contains_key(name) implies longer[name]
                    == self@.modules[name] && self@.modules.contains_key(name) by {
                    lemma_take_contains(names, k as int, name);
                }
                assert forall|name: Seq<char>|
                    self@.modules.contains_key(name) implies longer.contains_key(name) by {
                    lemma_take_contains(names, k as int, name);
                }
                assert(self@.modules =~= longer);
            }
            k = k + 1;
        }
        proof {
            assert(names.take(k as int) =~= names);
        }
        let group_key = VersionKey::new(removed.primary_workflow_type.as_str(), &version);
        let group = PackageGroup {
            primary_workflow_type: removed.primary_workflow_type,
            workflow_types: members,
        };
        let ghost group_view = group@;
        self.package_groups.insert(group_key, group);
        proof {
            assert(self@.groups =~= before.groups.insert(
                (removed.primary_workflow_type@, version),
                group_view,
            ));
        }
    }
}

/// Membership after a text is appended.
pub proof fn lemma_push_text(all: Seq<Seq<char>>, last: Seq<char>, text: Seq<char>)
    ensures
        all.push(last).contains(text) <==> (all.contains(text) || text == last),
{
    let longer = all.push(last);
    if all.contains(text) {
        let i = choose|i: int| 0 <= i < all.len() && all[i] == text;
        assert(longer[i] == text);
    }
    if text == last {
        assert(longer[all.len() as int] == text);
    }
    if longer.contains(text) && text != last {
        let i = choose|i: int| 0 <= i < longer.len() && longer[i] == text;
        assert(all[i] == text);
    }
}

/// Entries put back beside what they were taken from give back what was there.
proof fn lemma_with_members(
    whole: Map<(Seq<char>, ContentHash), CatalogEntry>,
    base: Map<(Seq<char>, ContentHash), CatalogEntry>,
    entries: Seq<(String, CatalogEntry)>,
    version: ContentHash,
)
    requires
        base.submap_of(whole),
        forall|i: int|
            0 <= i < entries.len() ==> whole.contains_key((entries[i].0@, version)) && (
            #[trigger] entries[i]).1 == whole[(entries[i].0@, version)],
    ensures
        with_members(base, entries, version).submap_of(whole),
        forall|key: (Seq<char>, ContentHash)| #[trigger]
            with_members(base, entries, version).contains_key(key) <==> base.contains_key(key) || (
            key.1 == version && entry_types(entries).contains(key.0)),
    decreases entries.len(),
{
    if entries.len() > 0 {
        let shorter = entries.drop_last();
        assert forall|i: int| 0 <= i < shorter.len() implies whole.contains_key(
            (shorter[i].0@, version),
        ) && (#[trigger] shorter[i]).1 == whole[(shorter[i].0@, version)] by {
            assert(shorter[i] == entries[i]);
        }
        lemma_with_members(whole, base, shorter, version);
        let last = entries.last();
        assert(entries[entries.len() - 1] == last);
        assert(entry_types(entries) =~= entry_types(shorter).push(last.0@));
        assert forall|key: (Seq<char>, ContentHash)| #[trigger]
            with_members(base, entries, version).contains_key(key) <==> base.contains_key(key) || (
            key.1 == version && entry_types(entries).contains(key.0)) by {
            lemma_push_text(entry_types(shorter), last.0@, key.0);
        }
    }
}

/// Restoring what an unload took out gives back the catalog as it was, where the
/// group is kept under its own primary type and version.
pub proof fn restoring_undoes_swapping_out(
    catalog: CatalogView,
    key: (Seq<char>, ContentHash),
    workflow_type: Seq<char>,
    version: ContentHash,
    removed: RemovedPackage,
)
    requires
        holds_group(catalog, key, workflow_type, version),
        key == (catalog.groups[key].primary, version),
        takes_out(catalog, catalog.groups[key], version, removed),
    ensures
        restored(swapped_out(catalog, catalog.groups[key], version), removed) == catalog,
{
    let group = catalog.groups[key];
    let out = swapped_out(catalog, group, version);
    let back = restored(out, removed);
    assert forall|i: int| 0 <= i < removed.entries@.len() implies
        catalog.by_version.contains_key((removed.entries@[i].0@, version)) && (
    #[trigger] removed.entries@[i]).1 == catalog.by_version[(removed.entries@[i].0@, version)] by {
        assert(entry_types(removed.entries@)[i] == removed.entries@[i].0@);
    }
    lemma_with_members(catalog.by_version, out.by_version, removed.entries@, version);
    assert forall|k: (Seq<char>, ContentHash)|
        back.by_version.contains_key(k) <==> catalog.by_version.contains_key(k) by {
        if k.1 == version && group.members.contains(k.0) {
            let i = choose|i: int| 0 <= i < group.members.len() && group.members[i] == k.0;
            assert(removed.entries@[i].1 == catalog.by_version[(group.members[i], version)]);
        }
    }
    assert(back.by_version =~= catalog.by_version);
    let names = texts(removed.modules@);
    assert forall|name: Seq<char>|
        back.modules.contains_key(name) <==> catalog.modules.contains_key(name) by {
        if names.contains(name) {
            assert(catalog.modules.contains_key(name));
        }
        if catalog.modules.contains_key(name) && !out.modules.contains_key(name) {
            assert(names.contains(name));
        }
    }
    assert forall|name: Seq<char>| back.modules.contains_key(name) implies back.modules[name]
        == catalog.modules[name] by {
        if names.contains(name) {
            assert(catalog.modules.contains_key(name));
            assert(!out.modules.contains_key(name));
        }
    }
    assert(back.modules =~= catalog.modules);
    assert(back.groups =~= catalog.groups) by {
        assert(GroupView { primary: group.primary, members: group.members } == group);
    }
}

} // verus!
