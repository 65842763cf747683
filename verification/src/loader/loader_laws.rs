//! What loading, routing, unloading and reloading do to what is loaded.

use vstd::prelude::*;
use vstd::utf8::encode_utf8;

use crate::clock::{earlier, Timestamp};
use crate::content_hash::{canonical_text_determines_the_hash, hash_text, ContentHash};
use crate::error::EngineError;
use crate::loader::catalog::catalog_listing::reports;
use crate::loader::catalog::catalog_load::{
    committed, fresh_load, is_resident, manifest_differs, moves_a_route, name_taken, names_free,
    native, refuses_package, renames, reply_of, resident_count, routed_at, staged_names,
    staged_types, unregistered, with_entries, with_routes, LoadStep, LoadView, PhaseView,
};
use crate::loader::catalog::catalog_unload::{
    holds_group, member_missing, routes, swapped_out, swaps_out, takes_out, RemovedPackage,
};
use crate::loader::catalog::{
    lists_versions, pin_count, pins_one_fewer, pins_one_more, routed_entry, version_listing,
    CatalogEntry, CatalogView, GroupView,
};
use crate::loader::load::{entry_is_sound, manifest_entries, stages, LoadedWorkflowView, StagedLoad};
use crate::loader::persistence::{
    decided, keyed_by, route_applies, routes_restored, PackageRecord, PackageRoute, ReloadDecision,
};
use crate::loader::version_info::WorkflowVersionInfo;
use crate::package::{deployed, Manifest, ManifestDigest, Package};
use crate::sort::{in_order, lemma_bytes_order, Ordered};
use crate::text::{before, decimal, joined, text_less};

verus! {

/// A manifest declares its primary workflow first, under the name of its entry module, and
/// then each additional one as it stands.
pub proof fn a_manifest_declares_every_entry(manifest: Manifest, i: int)
    ensures
        manifest_entries(manifest).len() == 1 + manifest.additional_workflows@.len(),
        ({
            let primary = manifest_entries(manifest)[0];
            &&& primary.workflow_type == manifest.entry_module@
            &&& primary.entry_module == manifest.entry_module@
            &&& primary.entry_function == manifest.entry_function@
            &&& primary.timeout == manifest.timeout
        }),
        0 <= i < manifest.additional_workflows@.len() ==> {
            let entry = manifest_entries(manifest)[i + 1];
            let declared = manifest.additional_workflows@[i];
            &&& entry.workflow_type == declared.workflow_type@
            &&& entry.entry_module == declared.entry_module@
            &&& entry.entry_function == declared.entry_function@
            &&& entry.timeout == declared.timeout
        },
{
}

/// An entry can be staged exactly where no earlier one declares its type and its module is
/// among the package's.
pub proof fn an_entry_needs_its_own_type_and_its_module(package: Package, i: int)
    ensures
        entry_is_sound(package, i) <==> {
            let entries = manifest_entries(package.manifest);
            &&& forall|j: int|
                0 <= j < i ==> (#[trigger] entries[j]).workflow_type != entries[i].workflow_type
            &&& exists|k: int|
                0 <= k < package.beams@.len() && (#[trigger] package.beams@[k]).name@
                    == entries[i].entry_module
        },
{
}

/// A staged package has every entry and every module of the package, under names of the
/// package's own version; and a timeout arms a deadline exactly where the package's identity
/// commits to it.
pub proof fn a_package_is_staged_as_it_is(
    package: Package,
    digest: ManifestDigest,
    staged: StagedLoad,
    i: int,
    m: int,
)
    requires
        stages(package, digest, staged),
    ensures
        staged.version == package.content_hash,
        staged.manifest_digest == digest,
        staged.manifest_version == package.manifest.version,
        staged.primary_workflow_type@ == package.manifest.entry_module@,
        staged.workflows@.len() == 1 + package.manifest.additional_workflows@.len(),
        staged.modules@.len() == package.beams@.len(),
        0 <= i < staged.workflows@.len() ==> {
            let entry = manifest_entries(package.manifest)[i];
            let workflow = staged.workflows@[i];
            &&& workflow.workflow_type@ == entry.workflow_type
            &&& workflow.entry_function@ == entry.entry_function
            &&& workflow.deployed_entry_module@ == entry.entry_module + "$"@ + hash_text(
                package.content_hash,
            )
            &&& package.commits_to_timeouts ==> workflow.declared_timeout == entry.timeout
            &&& !package.commits_to_timeouts ==> workflow.declared_timeout is None
        },
        0 <= m < staged.modules@.len() ==> {
            &&& staged.modules@[m].deployed_name@ == package.beams@[m].name@ + "$"@ + hash_text(
                package.content_hash,
            )
            &&& staged.modules@[m].bytes == package.beams@[m].bytes
        },
{
    if 0 <= i < staged.workflows@.len() {
        assert(crate::loader::load::staged_entry(package, i, staged.workflows@[i]));
    }
}

/// Modules of different names, or of different versions, are deployed under different names.
pub proof fn deployed_names_never_collide(
    a: Seq<char>,
    first: ContentHash,
    b: Seq<char>,
    second: ContentHash,
)
    requires
        deployed(a, first) == deployed(b, second),
    ensures
        a == b,
        first == second,
{
    let (one, other) = (deployed(a, first), deployed(b, second));
    let (s, t) = (hash_text(first), hash_text(second));
    assert(s.len() == 64 && t.len() == 64);
    reveal_strlit("$");
    assert(one.len() == a.len() + 65);
    assert(other.len() == b.len() + 65);
    assert(one.subrange(0, a.len() as int) =~= a);
    assert(other.subrange(0, b.len() as int) =~= b);
    assert(one.subrange((a.len() + 1) as int, one.len() as int) =~= s);
    assert(other.subrange((b.len() + 1) as int, other.len() as int) =~= t);
    canonical_text_determines_the_hash(first, second);
}

/// What committed entries make of a key.
proof fn lemma_with_entries(
    by_version: Map<(Seq<char>, ContentHash), CatalogEntry>,
    staged: StagedLoad,
    n: nat,
    loaded_at: Timestamp,
    key: (Seq<char>, ContentHash),
    i: int,
)
    requires
        staged.wf(),
        n <= staged.workflows@.len(),
    ensures
        0 <= i < n && key == (staged.workflows@[i].workflow_type@, staged.version) ==> {
            let entries = with_entries(by_version, staged, n, loaded_at);
            &&& entries.contains_key(key)
            &&& entries[key].workflow == staged.record_of(i)
            &&& entries[key].manifest_version == staged.manifest_version
            &&& entries[key].manifest_digest == staged.manifest_digest
            &&& entries[key].loaded_at == loaded_at
        },
        (forall|k: int|
            0 <= k < n ==> key != ((#[trigger] staged.workflows@[k]).workflow_type@, staged.version))
            ==> {
            let entries = with_entries(by_version, staged, n, loaded_at);
            &&& entries.contains_key(key) == by_version.contains_key(key)
            &&& by_version.contains_key(key) ==> entries[key] == by_version[key]
        },
    decreases n,
{
    if n > 0 {
        lemma_with_entries(by_version, staged, (n - 1) as nat, loaded_at, key, i);
        let last = staged.workflows@[n - 1];
        assert(staged_types(staged)[n - 1] == last.workflow_type@);
        if 0 <= i < n - 1 {
            assert(staged.workflows@[i].workflow_type@ != last.workflow_type@);
        }
    }
}

/// A committed package is loaded entry by entry, each as it was staged and from the given
/// instant on, and every other loaded version stays as it was.
pub proof fn a_committed_package_is_loaded(
    catalog: CatalogView,
    staged: StagedLoad,
    publish_routes: bool,
    loaded_at: Timestamp,
    i: int,
    other: (Seq<char>, ContentHash),
)
    requires
        staged.wf(),
        0 <= i < staged.workflows@.len(),
    ensures
        ({
            let after = committed(catalog, staged, publish_routes, loaded_at);
            let key = (staged.workflows@[i].workflow_type@, staged.version);
            &&& after.by_version.contains_key(key)
            &&& after.by_version[key].workflow@ == (LoadedWorkflowView {
                workflow_type: staged.workflows@[i].workflow_type@,
                deployed_entry_module: staged.workflows@[i].deployed_entry_module@,
                entry_function: staged.workflows@[i].entry_function@,
                version: staged.version,
                declared_timeout: staged.workflows@[i].declared_timeout,
            })
            &&& after.by_version[key].manifest_version == staged.manifest_version
            &&& after.by_version[key].manifest_digest == staged.manifest_digest
            &&& after.by_version[key].loaded_at == loaded_at
            &&& (forall|k: int|
                0 <= k < staged.workflows@.len() ==> other != ((
                #[trigger] staged.workflows@[k]).workflow_type@, staged.version)) ==> {
                &&& after.by_version.contains_key(other) == catalog.by_version.contains_key(other)
                &&& catalog.by_version.contains_key(other) ==> after.by_version[other]
                    == catalog.by_version[other]
            }
        }),
{
    let key = (staged.workflows@[i].workflow_type@, staged.version);
    let count = staged.workflows@.len();
    lemma_with_entries(catalog.by_version, staged, count, loaded_at, key, i);
    lemma_with_entries(catalog.by_version, staged, count, loaded_at, other, i);
    staged.a_record_is_that_of_its_entry(i);
}

/// A committed package takes the routes of its types over exactly where routes are
/// published, and those of no other type; a start in flight keeps its pin.
pub proof fn a_committed_package_takes_its_own_routes_only(
    catalog: CatalogView,
    staged: StagedLoad,
    publish_routes: bool,
    loaded_at: Timestamp,
    i: int,
    other: Seq<char>,
)
    requires
        0 <= i < staged.workflows@.len(),
        forall|k: int|
            0 <= k < staged.workflows@.len() ==> (#[trigger] staged.workflows@[k]).workflow_type@
                != other,
    ensures
        ({
            let after = committed(catalog, staged, publish_routes, loaded_at);
            let own = staged.workflows@[i].workflow_type@;
            &&& publish_routes ==> after.routed.contains_key(own) && after.routed[own]
                == staged.version
            &&& !publish_routes ==> after.routed == catalog.routed
            &&& after.routed.contains_key(other) == catalog.routed.contains_key(other)
            &&& catalog.routed.contains_key(other) ==> after.routed[other] == catalog.routed[other]
            &&& after.pins == catalog.pins
        }),
{
    let types = staged_types(staged);
    assert(types[i] == staged.workflows@[i].workflow_type@);
    assert(types.contains(staged.workflows@[i].workflow_type@));
    if types.contains(other) {
        let k = choose|k: int| 0 <= k < types.len() && types[k] == other;
        assert(staged.workflows@[k].workflow_type@ == other);
    }
}

/// A committed package has its modules registered, those that were not under its own
/// version, and its types grouped under its primary type; no other module and no other
/// group changes.
pub proof fn a_committed_package_has_its_modules_and_its_group(
    catalog: CatalogView,
    staged: StagedLoad,
    publish_routes: bool,
    loaded_at: Timestamp,
    m: int,
    name: Seq<char>,
    group: (Seq<char>, ContentHash),
    i: int,
)
    requires
        0 <= m < staged.modules@.len(),
        forall|k: int|
            0 <= k < staged.modules@.len() ==> (#[trigger] staged.modules@[k]).deployed_name@
                != name,
        group != (staged.primary_workflow_type@, staged.version),
        0 <= i < staged.workflows@.len(),
    ensures
        ({
            let after = committed(catalog, staged, publish_routes, loaded_at);
            let own = staged.modules@[m].deployed_name@;
            let primary = (staged.primary_workflow_type@, staged.version);
            &&& after.modules.contains_key(own)
            &&& after.modules[own] == if catalog.modules.contains_key(own) {
                catalog.modules[own]
            } else {
                staged.version
            }
            &&& after.modules.contains_key(name) == catalog.modules.contains_key(name)
            &&& catalog.modules.contains_key(name) ==> after.modules[name] == catalog.modules[name]
            &&& after.groups.contains_key(primary)
            &&& after.groups[primary].primary == staged.primary_workflow_type@
            &&& after.groups[primary].members.len() == staged.workflows@.len()
            &&& after.groups[primary].members[i] == staged.workflows@[i].workflow_type@
            &&& after.groups.contains_key(group) == catalog.groups.contains_key(group)
            &&& catalog.groups.contains_key(group) ==> after.groups[group] == catalog.groups[group]
        }),
{
    let names = staged_names(staged);
    assert(names[m] == staged.modules@[m].deployed_name@);
    assert(names.contains(staged.modules@[m].deployed_name@));
    if names.contains(name) {
        let k = choose|k: int| 0 <= k < names.len() && names[k] == name;
        assert(staged.modules@[k].deployed_name@ == name);
    }
}

/// Routing types at a version points each of them there and leaves every other route, and
/// everything else of the catalog, as it was.
pub proof fn routing_moves_the_given_types_only(
    catalog: CatalogView,
    staged: StagedLoad,
    types: Seq<Seq<char>>,
    version: ContentHash,
    name: Seq<char>,
)
    ensures
        types.contains(name) ==> with_routes(catalog.routed, types, version).contains_key(name)
            && with_routes(catalog.routed, types, version)[name] == version,
        !types.contains(name) ==> {
            let after = with_routes(catalog.routed, types, version);
            &&& after.contains_key(name) == catalog.routed.contains_key(name)
            &&& catalog.routed.contains_key(name) ==> after[name] == catalog.routed[name]
        },
        routed_at(catalog, staged).by_version == catalog.by_version,
        routed_at(catalog, staged).modules == catalog.modules,
        routed_at(catalog, staged).groups == catalog.groups,
        routed_at(catalog, staged).pins == catalog.pins,
        routed_at(catalog, staged).routed == with_routes(
            catalog.routed,
            staged_types(staged),
            staged.version,
        ),
{
}

/// A load changes a route exactly where some type of the package is routed elsewhere or
/// nowhere.
pub proof fn a_route_changes_where_a_type_is_routed_elsewhere(
    catalog: CatalogView,
    staged: StagedLoad,
)
    ensures
        moves_a_route(catalog, staged) <==> exists|i: int|
            0 <= i < staged.workflows@.len() && !(catalog.routed.contains_key(
                (#[trigger] staged.workflows@[i]).workflow_type@,
            ) && catalog.routed[staged.workflows@[i].workflow_type@] == staged.version),
{
    let types = staged_types(staged);
    if moves_a_route(catalog, staged) {
        let i = choose|i: int|
            0 <= i < staged.workflows@.len() && !routes(
                catalog,
                #[trigger] types[i],
                staged.version,
            );
        assert(types[i] == staged.workflows@[i].workflow_type@);
    }
    if exists|i: int|
        0 <= i < staged.workflows@.len() && !(catalog.routed.contains_key(
            (#[trigger] staged.workflows@[i]).workflow_type@,
        ) && catalog.routed[staged.workflows@[i].workflow_type@] == staged.version) {
        let i = choose|i: int|
            0 <= i < staged.workflows@.len() && !(catalog.routed.contains_key(
                (#[trigger] staged.workflows@[i]).workflow_type@,
            ) && catalog.routed[staged.workflows@[i].workflow_type@] == staged.version);
        assert(types[i] == staged.workflows@[i].workflow_type@);
    }
}

/// How many of the first entries are resident: none, all, or some.
proof fn lemma_some_resident(catalog: CatalogView, staged: StagedLoad, n: nat)
    ensures
        0 <= resident_count(catalog, staged, n) <= n,
        resident_count(catalog, staged, n) == 0 <==> (forall|i: int|
            0 <= i < n ==> !#[trigger] is_resident(catalog, staged, i)),
        resident_count(catalog, staged, n) == n <==> (forall|i: int|
            0 <= i < n ==> #[trigger] is_resident(catalog, staged, i)),
    decreases n,
{
    if n > 0 {
        lemma_some_resident(catalog, staged, (n - 1) as nat);
        if forall|i: int| 0 <= i < n ==> #[trigger] is_resident(catalog, staged, i) {
            assert(is_resident(catalog, staged, n - 1));
        }
        if forall|i: int| 0 <= i < n ==> !#[trigger] is_resident(catalog, staged, i) {
            assert(!is_resident(catalog, staged, n - 1));
        }
    }
}

/// A package is refused before anything is registered only where one of its modules belongs
/// to another version, where part of it but not all of it is resident, or where it is
/// resident with another manifest; and the error says which.
pub proof fn only_collisions_and_other_manifests_are_refused(
    catalog: CatalogView,
    staged: StagedLoad,
    error: EngineError,
)
    requires
        staged.wf(),
        refuses_package(catalog, staged, error),
    ensures
        error is Load || error is ManifestMismatch,
        error is Load ==> (exists|m: int|
            0 <= m < staged.modules@.len() && catalog.modules.contains_key(
                (#[trigger] staged.modules@[m]).deployed_name@,
            ) && catalog.modules[staged.modules@[m].deployed_name@] != staged.version) || ((exists|
            i: int,
        |
            0 <= i < staged.workflows@.len() && catalog.by_version.contains_key(
                ((#[trigger] staged.workflows@[i]).workflow_type@, staged.version),
            )) && (exists|i: int|
            0 <= i < staged.workflows@.len() && !catalog.by_version.contains_key(
                ((#[trigger] staged.workflows@[i]).workflow_type@, staged.version),
            ))),
        (error matches EngineError::ManifestMismatch {
            workflow_type,
            version,
            resident_digest,
            incoming_digest,
        } ==> version == staged.version && incoming_digest@ == staged.manifest_digest.text@ && (
        exists|i: int|
            0 <= i < staged.workflows@.len() && catalog.by_version.contains_key(
                ((#[trigger] staged.workflows@[i]).workflow_type@, staged.version),
            ) && catalog.by_version[(
                staged.workflows@[i].workflow_type@,
                staged.version,
            )].manifest_digest.text@ != staged.manifest_digest.text@)),
{
    let count = staged.workflows@.len();
    let types = staged_types(staged);
    lemma_some_resident(catalog, staged, count);
    if exists|m: int| 0 <= m < staged.modules@.len() && #[trigger] name_taken(catalog, staged, m) {
        let m = choose|m: int|
            0 <= m < staged.modules@.len() && #[trigger] name_taken(catalog, staged, m);
        assert(staged_names(staged)[m] == staged.modules@[m].deployed_name@);
    }
    if exists|i: int| 0 <= i < count && #[trigger] is_resident(catalog, staged, i) {
        let i = choose|i: int| 0 <= i < count && #[trigger] is_resident(catalog, staged, i);
        assert(types[i] == staged.workflows@[i].workflow_type@);
    }
    if exists|i: int| 0 <= i < count && !#[trigger] is_resident(catalog, staged, i) {
        let i = choose|i: int| 0 <= i < count && !#[trigger] is_resident(catalog, staged, i);
        assert(types[i] == staged.workflows@[i].workflow_type@);
    }
    if exists|i: int| 0 <= i < count && #[trigger] manifest_differs(catalog, staged, i) {
        let i = choose|i: int| 0 <= i < count && #[trigger] manifest_differs(catalog, staged, i);
        assert(types[i] == staged.workflows@[i].workflow_type@);
        if resident_count(catalog, staged, count) == count {
            assert(is_resident(catalog, staged, i));
        }
    }
}

/// A module is taken, an entry is resident and its manifest differs by what the catalog
/// holds under its name.
pub proof fn a_package_is_compared_with_what_is_loaded(
    catalog: CatalogView,
    staged: StagedLoad,
    i: int,
    m: int,
)
    ensures
        0 <= m < staged.modules@.len() ==> (name_taken(catalog, staged, m)
            <==> catalog.modules.contains_key(staged.modules@[m].deployed_name@)
            && catalog.modules[staged.modules@[m].deployed_name@] != staged.version),
        0 <= i < staged.workflows@.len() ==> (is_resident(catalog, staged, i)
            <==> catalog.by_version.contains_key(
            (staged.workflows@[i].workflow_type@, staged.version),
        )),
        0 <= i < staged.workflows@.len() ==> (manifest_differs(catalog, staged, i)
            <==> catalog.by_version[(
            staged.workflows@[i].workflow_type@,
            staged.version,
        )].manifest_digest.text@ != staged.manifest_digest.text@),
        names_free(catalog, staged) <==> forall|k: int|
            0 <= k < staged.modules@.len() ==> !(catalog.modules.contains_key(
                (#[trigger] staged.modules@[k]).deployed_name@,
            ) && catalog.modules[staged.modules@[k].deployed_name@] != staged.version),
{
    assert(staged_names(staged).len() == staged.modules@.len());
    assert forall|k: int| 0 <= k < staged.modules@.len() implies (#[trigger] name_taken(
        catalog,
        staged,
        k,
    ) <==> catalog.modules.contains_key(staged.modules@[k].deployed_name@)
        && catalog.modules[staged.modules@[k].deployed_name@] != staged.version) by {
        assert(staged_names(staged)[k] == staged.modules@[k].deployed_name@);
    }
    assert(names_free(catalog, staged) ==> forall|k: int|
        0 <= k < staged.modules@.len() ==> !(catalog.modules.contains_key(
            (#[trigger] staged.modules@[k]).deployed_name@,
        ) && catalog.modules[staged.modules@[k].deployed_name@] != staged.version)) by {
        if names_free(catalog, staged) {
            assert forall|k: int| 0 <= k < staged.modules@.len() implies !(
            catalog.modules.contains_key((#[trigger] staged.modules@[k]).deployed_name@)
                && catalog.modules[staged.modules@[k].deployed_name@] != staged.version) by {
                assert(!name_taken(catalog, staged, k));
            }
        }
    }
}

/// A load registers exactly the modules of the package that are not registered yet, in the
/// package's order.
pub proof fn a_load_registers_what_is_missing(
    catalog: CatalogView,
    staged: StagedLoad,
    n: nat,
    m: usize,
)
    requires
        n <= staged.modules@.len() <= usize::MAX,
    ensures
        unregistered(catalog, staged, n).contains(m) <==> m < n && !catalog.modules.contains_key(
            staged.modules@[m as int].deployed_name@,
        ),
        forall|p: int, q: int|
            0 <= p < q < unregistered(catalog, staged, n).len() ==> (
            #[trigger] unregistered(catalog, staged, n)[p]) < (
            #[trigger] unregistered(catalog, staged, n)[q]),
        forall|p: int|
            0 <= p < unregistered(catalog, staged, n).len() ==> (
            #[trigger] unregistered(catalog, staged, n)[p]) < n,
    decreases n,
{
    if n > 0 {
        a_load_registers_what_is_missing(catalog, staged, (n - 1) as nat, m);
        let shorter = unregistered(catalog, staged, (n - 1) as nat);
        let all = unregistered(catalog, staged, n);
        assert(staged_names(staged)[n - 1] == staged.modules@[n - 1].deployed_name@);
        if shorter.contains(m) {
            let p = choose|p: int| 0 <= p < shorter.len() && shorter[p] == m;
            assert(all[p] == m);
        }
        if !catalog.modules.contains_key(staged_names(staged)[n - 1]) {
            assert(all[shorter.len() as int] == (n - 1) as usize);
            if all.contains(m) {
                let p = choose|p: int| 0 <= p < all.len() && all[p] == m;
                if p < shorter.len() {
                    assert(shorter[p] == m);
                }
            }
        }
    }
}

/// A fresh load has registered nothing; it begins with the first module that is missing, and
/// where none is, with the verification of the first entry.
pub proof fn a_fresh_load_has_registered_nothing(catalog: CatalogView, staged: StagedLoad)
    ensures
        ({
            let load = fresh_load(catalog, staged);
            &&& load.registered == 0
            &&& load.pending == unregistered(catalog, staged, staged.modules@.len())
            &&& load.pending.len() > 0 ==> load.phase is Registering
            &&& load.pending.len() == 0 ==> load.phase == PhaseView::Verifying(0)
        }),
{
}

/// What a reply does to a load: modules are registered one after the other and then entries
/// verified one after the other; the first failure unwinds what was registered, last first,
/// and a failing unwinding goes on.
pub proof fn a_load_takes_its_steps_in_order(
    load: LoadView,
    staged: StagedLoad,
    reply: Option<Seq<char>>,
)
    requires
        load.fits(staged),
    ensures
        ({
            let next = load.after(staged, reply);
            &&& next.pending == load.pending
            &&& load.phase is Registering && reply is None ==> next.registered == load.registered
                + 1 && (next.phase == PhaseView::Verifying(0) <==> load.registered + 1
                == load.pending.len()) && (next.phase is Registering <==> load.registered + 1
                < load.pending.len())
            &&& !(load.phase is Registering && reply is None) ==> next.registered
                == load.registered
            &&& (load.phase matches PhaseView::Verifying(entry) ==> (reply is None ==> {
                &&& entry + 1 == staged.workflows@.len() ==> next.phase is Verified
                &&& entry + 1 < staged.workflows@.len() ==> next.phase == PhaseView::Verifying(
                    entry + 1,
                )
            }))
            &&& (load.phase is Registering || load.phase is Verifying) && reply is Some ==> {
                &&& load.registered == 0 ==> next.phase is Failed
                &&& load.registered > 0 ==> (next.phase matches PhaseView::RollingBack {
                    remaining,
                    ..
                } && remaining == load.registered)
            }
            &&& (load.phase matches PhaseView::RollingBack { remaining, .. } ==> {
                &&& remaining == 1 ==> next.phase is Failed
                &&& remaining > 1 ==> (next.phase matches PhaseView::RollingBack {
                    remaining: left,
                    ..
                } && left == remaining - 1)
            })
            &&& load.phase is Verified || load.phase is Failed ==> next == load
        }),
{
}

/// Swapping a group out takes its members out at its version, and nothing else that is
/// loaded; the routes and the pins stay; and modules of the version go exactly where no
/// other group of the version is left.
pub proof fn swapping_out_takes_the_group_and_nothing_else(
    catalog: CatalogView,
    group: GroupView,
    version: ContentHash,
    key: (Seq<char>, ContentHash),
    name: Seq<char>,
)
    ensures
        ({
            let after = swapped_out(catalog, group, version);
            let own = (group.primary, version);
            let shared = exists|other: (Seq<char>, ContentHash)| #[trigger]
                catalog.groups.contains_key(other) && other != own && other.1 == version;
            &&& after.routed == catalog.routed
            &&& after.pins == catalog.pins
            &&& after.by_version.contains_key(key) <==> catalog.by_version.contains_key(key) && !(
            key.1 == version && group.members.contains(key.0))
            &&& after.by_version.contains_key(key) ==> after.by_version[key]
                == catalog.by_version[key]
            &&& !after.groups.contains_key(own)
            &&& key != own ==> after.groups.contains_key(key) == catalog.groups.contains_key(key)
            &&& key != own && catalog.groups.contains_key(key) ==> after.groups[key]
                == catalog.groups[key]
            &&& after.modules.contains_key(name) <==> catalog.modules.contains_key(name) && (shared
                || catalog.modules[name] != version)
            &&& after.modules.contains_key(name) ==> after.modules[name] == catalog.modules[name]
        }),
{
    let own = (group.primary, version);
    let groups = catalog.groups.remove(own);
    assert forall|other: (Seq<char>, ContentHash)| #[trigger] groups.contains_key(other)
        <==> catalog.groups.contains_key(other) && other != own by {}
    if exists|other: (Seq<char>, ContentHash)| #[trigger]
        catalog.groups.contains_key(other) && other != own && other.1 == version {
        let other = choose|other: (Seq<char>, ContentHash)| #[trigger]
            catalog.groups.contains_key(other) && other != own && other.1 == version;
        assert(groups.contains_key(other));
    }
}

/// A version that is swapped out was loaded, and no type of its group was routed at it; what
/// is taken out is the group with the entries that were loaded for it.
pub proof fn only_an_unrouted_version_is_swapped_out(
    catalog: CatalogView,
    workflow_type: Seq<char>,
    version: ContentHash,
    removed: RemovedPackage,
    after: CatalogView,
)
    requires
        swaps_out(catalog, workflow_type, version, removed, after),
    ensures
        catalog.by_version.contains_key((workflow_type, version)),
        !after.by_version.contains_key((workflow_type, version)),
        !(catalog.routed.contains_key(workflow_type) && catalog.routed[workflow_type] == version),
        after.routed == catalog.routed,
        after.pins == catalog.pins,
        removed.version == version,
        exists|i: int|
            0 <= i < removed.entries@.len() && (#[trigger] removed.entries@[i]).0@ == workflow_type
                && removed.entries@[i].1 == catalog.by_version[(workflow_type, version)],
{
    let key = choose|key: (Seq<char>, ContentHash)|
        {
            let group = catalog.groups[key];
            &&& #[trigger] holds_group(catalog, key, workflow_type, version)
            &&& forall|j: int|
                0 <= j < group.members.len() ==> !routes(
                    catalog,
                    #[trigger] group.members[j],
                    version,
                )
            &&& takes_out(catalog, group, version, removed)
            &&& after == swapped_out(catalog, group, version)
        };
    let group = catalog.groups[key];
    assert(group.members.contains(workflow_type));
    let j = choose|j: int| 0 <= j < group.members.len() && group.members[j] == workflow_type;
    assert(!routes(catalog, group.members[j], version));
    assert(crate::loader::catalog::catalog_unload::entry_types(removed.entries@)[j]
        == removed.entries@[j].0@);
    assert(removed.entries@[j].0@ == workflow_type);
}

/// A type resolves to the loaded version that it is routed at, and to nothing where it is
/// not routed.
pub proof fn a_type_resolves_to_its_routed_version(catalog: CatalogView, workflow_type: Seq<char>)
    ensures
        !catalog.routed.contains_key(workflow_type) ==> routed_entry(catalog, workflow_type)
            is None,
        (routed_entry(catalog, workflow_type) matches Some(entry) ==> entry
            == catalog.by_version[(workflow_type, catalog.routed[workflow_type])]),
        catalog.routed.contains_key(workflow_type) && catalog.by_version.contains_key(
            (workflow_type, catalog.routed[workflow_type]),
        ) ==> routed_entry(catalog, workflow_type) is Some,
{
}

/// Pinning a version counts one more start on it and on no other, and releasing counts one
/// fewer; nothing else of the catalog changes.
pub proof fn pins_count_the_starts_of_one_version(
    before: CatalogView,
    after: CatalogView,
    key: (Seq<char>, ContentHash),
    other: (Seq<char>, ContentHash),
)
    requires
        other != key,
        pin_count(before.pins, key) < usize::MAX,
    ensures
        pins_one_more(before, after, key) ==> {
            &&& pin_count(after.pins, key) == pin_count(before.pins, key) + 1
            &&& pin_count(after.pins, other) == pin_count(before.pins, other)
            &&& after.by_version == before.by_version
            &&& after.routed == before.routed
            &&& after.modules == before.modules
            &&& after.groups == before.groups
        },
        pins_one_fewer(before, after, key) ==> {
            &&& pin_count(before.pins, key) > 0 ==> pin_count(after.pins, key) == pin_count(
                before.pins,
                key,
            ) - 1
            &&& pin_count(before.pins, key) == 0 ==> pin_count(after.pins, key) == 0
            &&& pin_count(after.pins, other) == pin_count(before.pins, other)
            &&& after.by_version == before.by_version
            &&& after.routed == before.routed
            &&& after.modules == before.modules
            &&& after.groups == before.groups
        },
{
}

/// A listed version shows what is loaded under its key, and is marked as routed exactly
/// where its type is routed at it.
pub proof fn a_listed_version_shows_what_is_loaded(
    catalog: CatalogView,
    key: (Seq<char>, ContentHash),
    info: WorkflowVersionInfo,
)
    requires
        reports(catalog, key, info),
        key == (
            catalog.by_version[key].workflow@.workflow_type,
            catalog.by_version[key].workflow@.version,
        ),
    ensures
        info.workflow_type@ == key.0,
        info.content_hash == key.1,
        info.deployed_entry_module@ == catalog.by_version[key].workflow@.deployed_entry_module,
        info.entry_function@ == catalog.by_version[key].workflow@.entry_function,
        info.manifest_version == catalog.by_version[key].manifest_version,
        info.loaded_at == catalog.by_version[key].loaded_at,
        info.route_active <==> catalog.routed.contains_key(key.0) && catalog.routed[key.0] == key.1,
{
}

/// Versions are listed by their types' texts, versions of one type by when they were loaded,
/// and those by the texts of their hashes.
pub proof fn versions_are_listed_by_type_and_age(
    listed: Seq<WorkflowVersionInfo>,
    i: int,
    j: int,
)
    requires
        in_order(listed),
        0 <= i < j < listed.len(),
    ensures
        !text_less(listed[j].workflow_type@, listed[i].workflow_type@),
        listed[i].workflow_type@ == listed[j].workflow_type@ ==> !earlier(
            listed[j].loaded_at,
            listed[i].loaded_at,
        ),
        listed[i].workflow_type@ == listed[j].workflow_type@ && listed[i].loaded_at
            == listed[j].loaded_at ==> !text_less(
            hash_text(listed[j].content_hash),
            hash_text(listed[i].content_hash),
        ),
{
    let bytes = encode_utf8(listed[i].workflow_type@);
    lemma_bytes_order(bytes, bytes, bytes);
    assert(listed[i].may_precede(&listed[j]));
}

/// A text without the character is all before it.
proof fn lemma_before_all(text: Seq<char>, stop: char)
    requires
        forall|i: int| 0 <= i < text.len() ==> text[i] != stop,
    ensures
        before(text, stop) == text,
    decreases text.len(),
{
    if text.len() > 0 {
        let rest = text.skip(1);
        assert forall|i: int| 0 <= i < rest.len() implies rest[i] != stop by {
            assert(rest[i] == text[i + 1]);
        }
        lemma_before_all(rest, stop);
        assert(seq![text[0]] + rest =~= text);
    } else {
        assert(before(text, stop) =~= text);
    }
}

/// What follows the first occurrence does not matter.
proof fn lemma_before_stop(base: Seq<char>, rest: Seq<char>, stop: char)
    requires
        forall|i: int| 0 <= i < base.len() ==> base[i] != stop,
    ensures
        before(base.push(stop) + rest, stop) == base,
    decreases base.len(),
{
    let text = base.push(stop) + rest;
    if base.len() == 0 {
        assert(text[0] == stop);
        assert(before(text, stop) =~= base);
    } else {
        let tail = base.skip(1);
        assert forall|i: int| 0 <= i < tail.len() implies tail[i] != stop by {
            assert(tail[i] == base[i + 1]);
        }
        lemma_before_stop(tail, rest, stop);
        assert(text[0] == base[0]);
        assert(text.skip(1) =~= tail.push(stop) + rest);
        assert(seq![base[0]] + tail =~= base);
    }
}

/// A module is the runtime's own exactly where its name, up to the mark that a version
/// follows, is that of a native module: under its plain name as under a deployed one.
pub proof fn a_native_module_is_known_by_its_plain_name(
    base: Seq<char>,
    rest: Seq<char>,
    native_modules: Seq<Seq<char>>,
)
    requires
        forall|i: int| 0 <= i < base.len() ==> base[i] != '$',
    ensures
        native(base, native_modules) <==> native_modules.contains(base),
        native(base.push('$') + rest, native_modules) <==> native_modules.contains(base),
{
    lemma_before_all(base, '$');
    lemma_before_stop(base, rest, '$');
}

/// A package's modules are renamed to their deployed names, except for those that the
/// runtime provides itself.
pub proof fn modules_are_renamed_unless_native(
    package: Package,
    native_modules: Seq<Seq<char>>,
    n: nat,
    pair: (Seq<char>, Seq<char>),
)
    requires
        n <= package.beams@.len(),
    ensures
        renames(package, native_modules, n).contains(pair) <==> {
            &&& exists|i: int| 0 <= i < n && (#[trigger] package.beams@[i]).name@ == pair.0
            &&& !native_modules.contains(pair.0)
            &&& pair.1 == pair.0 + "$"@ + hash_text(package.content_hash)
        },
    decreases n,
{
    if n > 0 {
        modules_are_renamed_unless_native(package, native_modules, (n - 1) as nat, pair);
        let shorter = renames(package, native_modules, (n - 1) as nat);
        let all = renames(package, native_modules, n);
        let name = package.beams@[n - 1].name@;
        if shorter.contains(pair) {
            let p = choose|p: int| 0 <= p < shorter.len() && shorter[p] == pair;
            assert(all[p] == pair);
        }
        if !native_modules.contains(name) {
            assert(all[shorter.len() as int] == (name, deployed(name, package.content_hash)));
            if all.contains(pair) {
                let p = choose|p: int| 0 <= p < all.len() && all[p] == pair;
                if p < shorter.len() {
                    assert(shorter[p] == pair);
                }
            }
        }
        if exists|i: int| 0 <= i < n - 1 && (#[trigger] package.beams@[i]).name@ == pair.0 {
            let i = choose|i: int| 0 <= i < n - 1 && (#[trigger] package.beams@[i]).name@ == pair.0;
            assert(package.beams@[i].name@ == pair.0);
        }
    }
}

/// A stored row is loaded exactly where its archive holds a package of the type and the
/// version that its key names.
pub proof fn a_row_is_loaded_exactly_where_its_archive_is_its_own(
    record: PackageRecord,
    package: Option<Package>,
)
    ensures
        decided(record, package) == ReloadDecision::Load <==> (package matches Some(held)
            && hash_text(held.content_hash) == record.content_hash@ && held.manifest.entry_module@
            == record.workflow_type@),
        decided(record, package) == ReloadDecision::SkipInvalidArchive <==> package is None,
        (package matches Some(held) ==> (keyed_by(held, record.workflow_type@, record.content_hash@)
            <==> hash_text(held.content_hash) == record.content_hash@ && held.manifest.entry_module@
            == record.workflow_type@)),
{
}

/// A stored pointer routes its type at the version that it names where that is loaded, over
/// what any earlier pointer said, and changes nothing otherwise; it never changes the route
/// of another type.
pub proof fn the_last_pointer_at_a_loaded_version_wins(
    catalog: CatalogView,
    routes: Seq<PackageRoute>,
    route: PackageRoute,
    version: ContentHash,
    other: Seq<char>,
)
    requires
        other != route.workflow_type@,
    ensures
        routes_restored(catalog, Seq::<PackageRoute>::empty()) == catalog.routed,
        route.content_hash@ == hash_text(version) && catalog.by_version.contains_key(
            (route.workflow_type@, version),
        ) ==> routes_restored(catalog, routes.push(route)) == routes_restored(
            catalog,
            routes,
        ).insert(route.workflow_type@, version),
        (forall|v: ContentHash|
            #![trigger hash_text(v)]
            route.content_hash@ == hash_text(v) ==> !catalog.by_version.contains_key(
                (route.workflow_type@, v),
            )) ==> routes_restored(catalog, routes.push(route)) == routes_restored(catalog, routes),
        routes_restored(catalog, routes.push(route)).contains_key(other) == routes_restored(
            catalog,
            routes,
        ).contains_key(other),
        routes_restored(catalog, routes).contains_key(other) ==> routes_restored(
            catalog,
            routes.push(route),
        )[other] == routes_restored(catalog, routes)[other],
{
    assert(routes.push(route).drop_last() =~= routes);
    assert(routes.push(route).last() == route);
    if route.content_hash@ == hash_text(version) && catalog.by_version.contains_key(
        (route.workflow_type@, version),
    ) {
        assert(route_applies(catalog, route, version));
        let chosen = choose|v: ContentHash| route_applies(catalog, route, v);
        canonical_text_determines_the_hash(chosen, version);
    }
}

/// A step of a load succeeded or failed as its reply says, and a failure is told.
pub proof fn a_failing_step_of_a_load_is_told(
    load: LoadView,
    staged: StagedLoad,
    error: EngineError,
)
    requires
        load.fits(staged),
    ensures
        reply_of(Ok::<(), EngineError>(())) is None,
        reply_of(Err::<(), EngineError>(error)) == Some(error.describes()),
        load.phase is Registering || load.phase is Verifying ==> exists|told: Seq<char>|
            {
                let text = #[trigger] (told + error.describes());
                match load.after(staged, Some(error.describes())).phase {
                    PhaseView::Failed(reason) => reason == text,
                    PhaseView::RollingBack { reason, failures, .. } => reason == text
                        && failures.len() == 0,
                    _ => false,
                }
            },
{
    match load.phase {
        PhaseView::Registering => {
            let told = "runtime rejected deployed module `"@ + load.pending_name(
                staged,
                load.registered,
            ) + "` after "@ + decimal(load.registered as nat) + " staged registrations: "@;
            let text = told + error.describes();
        },
        PhaseView::Verifying(entry) => {
            let told = "entry verification failed for workflow `"@
                + staged.workflows@[entry].workflow_type@ + "`: "@;
            let text = told + error.describes();
        },
        _ => {},
    }
}

/// An unknown version is named with its type, and with exactly the versions of that type
/// that are loaded.
pub proof fn an_unknown_version_is_named_with_those_that_are_loaded(
    by_version: Map<(Seq<char>, ContentHash), CatalogEntry>,
    workflow_type: Seq<char>,
    listing: Seq<Seq<char>>,
    version: ContentHash,
    text: Seq<char>,
)
    requires
        lists_versions(by_version, workflow_type, listing),
    ensures
        listing.contains(hash_text(version)) <==> by_version.contains_key((workflow_type, version)),
        listing.contains(text) ==> exists|loaded: ContentHash|
            text == #[trigger] hash_text(loaded) && by_version.contains_key(
                (workflow_type, loaded),
            ),
        listing.no_duplicates(),
        listing.len() == 0 ==> version_listing(listing) == "none"@,
        listing.len() > 0 ==> version_listing(listing) == joined(listing, ", "@),
{
    if listing.contains(text) {
        let loaded = choose|loaded: ContentHash| text == #[trigger] hash_text(loaded);
        assert(listing.contains(hash_text(loaded)));
    }
}

/// A load asks for the first module that is not registered yet, then for each entry in turn,
/// and is committed only once all of it is verified; one that is given up asks for what it
/// registered last to be unwound, and is refused once nothing of it is left.
pub proof fn a_load_asks_for_what_comes_next(load: LoadView, staged: StagedLoad)
    requires
        load.fits(staged),
    ensures
        load.phase is Registering ==> load.asks() == (LoadStep::Register {
            module: load.pending[load.registered],
        }),
        (load.phase matches PhaseView::Verifying(entry) ==> (load.asks() matches LoadStep::Verify {
            entry: asked,
        } && (entry <= usize::MAX ==> asked == entry))),
        (load.phase matches PhaseView::RollingBack { remaining, .. } ==> load.asks() == (
        LoadStep::RollBack { module: load.pending[remaining - 1] })),
        load.phase is Verified <==> load.asks() is Commit,
        load.phase is Failed <==> load.asks() is Refuse,
{
}

/// A member is missing from a group where its version is not loaded, or where an earlier
/// member has its type already.
pub proof fn a_member_is_missing_where_it_is_not_loaded_or_repeats(
    catalog: CatalogView,
    members: Seq<Seq<char>>,
    version: ContentHash,
    i: int,
    j: int,
)
    requires
        0 <= i < members.len(),
    ensures
        !catalog.by_version.contains_key((members[i], version)) ==> member_missing(
            catalog,
            members,
            version,
            i,
        ),
        0 <= j < i && members[j] == members[i] ==> member_missing(catalog, members, version, i),
        catalog.by_version.contains_key((members[i], version)) && members.no_duplicates()
            ==> !member_missing(catalog, members, version, i),
{
}

} // verus!
