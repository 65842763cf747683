//! What every catalog operation keeps, and how a load runs to its end.

use vstd::prelude::*;

use crate::clock::Timestamp;
use crate::content_hash::ContentHash;
use crate::error::EngineError;
use crate::loader::catalog::catalog_load::{
    committed, is_resident, staged_types, with_entries, with_routes, LoadStep, LoadView,
    PhaseView,
};
use crate::loader::catalog::catalog_unload::{
    holds_group, lemma_take_contains, member_missing, refuses_group, refuses_swap, routes,
    swapped_out,
};
use crate::loader::catalog::{
    is_unknown_version, routed_entry, CatalogEntry, CatalogView, GroupView,
};
use crate::loader::load::StagedLoad;

verus! {

/// Every group is kept under its own primary type, which is one of its members.
pub open spec fn groups_keyed(catalog: CatalogView) -> bool {
    forall|key: (Seq<char>, ContentHash)| #[trigger]
        catalog.groups.contains_key(key) ==> key.0 == catalog.groups[key].primary
            && catalog.groups[key].members.contains(key.0)
}

/// Every member of a group is loaded at the group's version.
pub open spec fn members_loaded(catalog: CatalogView) -> bool {
    forall|key: (Seq<char>, ContentHash), i: int|
        catalog.groups.contains_key(key) && 0 <= i < catalog.groups[key].members.len()
            ==> catalog.by_version.contains_key((#[trigger] catalog.groups[key].members[i], key.1))
}

/// Two groups of one version have no member in common.
pub open spec fn groups_disjoint(catalog: CatalogView) -> bool {
    forall|a: (Seq<char>, ContentHash), b: (Seq<char>, ContentHash), member: Seq<char>|
        #![trigger holds_group(catalog, a, member, a.1), holds_group(catalog, b, member, b.1)]
        a.1 == b.1 && holds_group(catalog, a, member, a.1) && holds_group(catalog, b, member, b.1)
            ==> a == b
}

/// Some group has a loaded version as a member.
pub open spec fn grouped(catalog: CatalogView, key: (Seq<char>, ContentHash)) -> bool {
    exists|group: (Seq<char>, ContentHash)| #[trigger] holds_group(catalog, group, key.0, key.1)
}

/// Every loaded version is a member of some group.
pub open spec fn entries_grouped(catalog: CatalogView) -> bool {
    forall|key: (Seq<char>, ContentHash)| #[trigger]
        catalog.by_version.contains_key(key) ==> grouped(catalog, key)
}

/// No group has a member twice.
pub open spec fn members_distinct(catalog: CatalogView) -> bool {
    forall|key: (Seq<char>, ContentHash)| #[trigger]
        catalog.groups.contains_key(key) ==> catalog.groups[key].members.no_duplicates()
}

/// Every routed version is loaded.
pub open spec fn routes_loaded(catalog: CatalogView) -> bool {
    forall|name: Seq<char>| #[trigger]
        catalog.routed.contains_key(name) ==> catalog.by_version.contains_key(
            (name, catalog.routed[name]),
        )
}

/// The catalog is sound: routes lead to loaded versions, groups are complete, disjoint,
/// without repetition and kept under their own keys, and every loaded version belongs to
/// one.
pub open spec fn sound(catalog: CatalogView) -> bool {
    &&& routes_loaded(catalog)
    &&& groups_keyed(catalog)
    &&& members_loaded(catalog)
    &&& groups_disjoint(catalog)
    &&& members_distinct(catalog)
    &&& entries_grouped(catalog)
}

/// A catalog without versions, routes and groups is sound.
pub proof fn an_empty_catalog_is_sound(catalog: CatalogView)
    requires
        catalog.by_version == Map::<(Seq<char>, ContentHash), CatalogEntry>::empty(),
        catalog.routed == Map::<Seq<char>, ContentHash>::empty(),
        catalog.groups == Map::<(Seq<char>, ContentHash), GroupView>::empty(),
    ensures
        sound(catalog),
{
}

/// In a sound catalog every loaded version is a member of exactly one group.
pub proof fn a_loaded_version_has_exactly_one_group(
    catalog: CatalogView,
    workflow_type: Seq<char>,
    version: ContentHash,
)
    requires
        sound(catalog),
        catalog.by_version.contains_key((workflow_type, version)),
    ensures
        grouped(catalog, (workflow_type, version)),
        forall|a: (Seq<char>, ContentHash), b: (Seq<char>, ContentHash)|
            #[trigger] holds_group(catalog, a, workflow_type, version) && #[trigger] holds_group(
                catalog,
                b,
                workflow_type,
                version,
            ) ==> a == b,
{
    assert forall|a: (Seq<char>, ContentHash), b: (Seq<char>, ContentHash)|
        #[trigger] holds_group(catalog, a, workflow_type, version) && #[trigger] holds_group(
            catalog,
            b,
            workflow_type,
            version,
        ) implies a == b by {
        assert(holds_group(catalog, a, workflow_type, a.1));
        assert(holds_group(catalog, b, workflow_type, b.1));
    }
}

/// In a sound catalog a version is refused to be swapped out only because it is not
/// loaded, or because a member of its group is routed at it: no group is missing or
/// incomplete.
pub proof fn only_unknown_and_routed_versions_stay(
    catalog: CatalogView,
    workflow_type: Seq<char>,
    version: ContentHash,
    error: EngineError,
)
    requires
        sound(catalog),
        refuses_swap(catalog, workflow_type, version, error),
    ensures
        if catalog.by_version.contains_key((workflow_type, version)) {
            exists|key: (Seq<char>, ContentHash), i: int|
                {
                    &&& holds_group(catalog, key, workflow_type, version)
                    &&& 0 <= i < catalog.groups[key].members.len()
                    &&& routes(catalog, #[trigger] catalog.groups[key].members[i], version)
                    &&& error matches EngineError::RouteActive {
                        workflow_type: routed,
                        version: active,
                    }
                    &&& routed@ == catalog.groups[key].members[i]
                    &&& active == version
                }
        } else {
            is_unknown_version(error, catalog, workflow_type, version)
        },
{
    if catalog.by_version.contains_key((workflow_type, version)) {
        assert(grouped(catalog, (workflow_type, version)));
        let key = choose|key: (Seq<char>, ContentHash)|
            {
                &&& #[trigger] holds_group(catalog, key, workflow_type, version)
                &&& refuses_group(catalog, catalog.groups[key], version, error)
            };
        let members = catalog.groups[key].members;
        assert(catalog.groups.contains_key(key));
        assert forall|i: int| 0 <= i < members.len() implies !#[trigger] member_missing(
            catalog,
            members,
            version,
            i,
        ) by {
            assert(catalog.by_version.contains_key((catalog.groups[key].members[i], key.1)));
        }
        let i = choose|i: int|
            {
                &&& 0 <= i < members.len()
                &&& #[trigger] routes(catalog, members[i], version)
                &&& error matches EngineError::RouteActive { workflow_type, version: active }
                    && workflow_type@ == members[i] && active == version
            };
        assert(routes(catalog, catalog.groups[key].members[i], version));
    }
}

/// In a sound catalog a start resolves a type exactly when the type has a route.
pub proof fn routed_types_resolve(catalog: CatalogView, workflow_type: Seq<char>)
    requires
        sound(catalog),
    ensures
        routed_entry(catalog, workflow_type) is Some <==> catalog.routed.contains_key(
            workflow_type,
        ),
{
}

/// Which versions are loaded after staged workflows are entered.
proof fn lemma_with_entries(
    by_version: Map<(Seq<char>, ContentHash), CatalogEntry>,
    staged: StagedLoad,
    n: nat,
    loaded_at: Timestamp,
)
    requires
        n <= staged.workflows@.len(),
    ensures
        forall|key: (Seq<char>, ContentHash)| #[trigger]
            with_entries(by_version, staged, n, loaded_at).contains_key(key)
                <==> by_version.contains_key(key) || (key.1 == staged.version && staged_types(
                staged,
            ).take(n as int).contains(key.0)),
    decreases n,
{
    let types = staged_types(staged);
    if n == 0 {
        assert(types.take(0) =~= Seq::empty());
    } else {
        lemma_with_entries(by_version, staged, (n - 1) as nat, loaded_at);
        assert forall|key: (Seq<char>, ContentHash)| #[trigger]
            with_entries(by_version, staged, n, loaded_at).contains_key(key)
                <==> by_version.contains_key(key) || (key.1 == staged.version && types.take(
                n as int,
            ).contains(key.0)) by {
            lemma_take_contains(types, n - 1, key.0);
            let before = with_entries(by_version, staged, (n - 1) as nat, loaded_at);
            let own = (types[n - 1], staged.version);
            assert(with_entries(by_version, staged, n, loaded_at).contains_key(key) <==> (
            before.contains_key(key) || key == own));
            assert(key == own <==> (key.0 == own.0 && key.1 == own.1));
        }
    }
}

/// Committing a package that is not resident keeps the catalog sound.
pub proof fn committing_keeps_the_catalog_sound(
    catalog: CatalogView,
    staged: StagedLoad,
    publish_routes: bool,
    loaded_at: Timestamp,
)
    requires
        sound(catalog),
        staged.wf(),
        forall|i: int|
            0 <= i < staged.workflows@.len() ==> !#[trigger] is_resident(catalog, staged, i),
    ensures
        sound(committed(catalog, staged, publish_routes, loaded_at)),
{
    let after = committed(catalog, staged, publish_routes, loaded_at);
    let types = staged_types(staged);
    let version = staged.version;
    let own = (staged.primary_workflow_type@, version);
    lemma_with_entries(catalog.by_version, staged, staged.workflows@.len(), loaded_at);
    assert(types.take(types.len() as int) =~= types);
    assert(types[0] == staged.primary_workflow_type@);
    assert(types.contains(own.0));
    // A member of a kept group at this version would be resident.
    assert forall|key: (Seq<char>, ContentHash), member: Seq<char>|
        catalog.groups.contains_key(key) && key.1 == version && #[trigger]
            catalog.groups[key].members.contains(member) implies !types.contains(member) by {
        let i = choose|i: int|
            0 <= i < catalog.groups[key].members.len() && catalog.groups[key].members[i] == member;
        assert(catalog.by_version.contains_key((catalog.groups[key].members[i], key.1)));
        if types.contains(member) {
            let k = choose|k: int| 0 <= k < types.len() && types[k] == member;
            assert(!is_resident(catalog, staged, k));
        }
    }
    assert(!catalog.groups.contains_key(own)) by {
        if catalog.groups.contains_key(own) {
            assert(catalog.groups[own].members.contains(own.0));
        }
    }
    assert(routes_loaded(after)) by {
        assert forall|name: Seq<char>| #[trigger] after.routed.contains_key(name) implies
            after.by_version.contains_key((name, after.routed[name])) by {
            if !(publish_routes && types.contains(name)) {
                assert(catalog.routed.contains_key(name));
            }
        }
    }
    assert(groups_keyed(after)) by {
        assert forall|key: (Seq<char>, ContentHash)| #[trigger]
            after.groups.contains_key(key) implies key.0 == after.groups[key].primary
            && after.groups[key].members.contains(key.0) by {
            if key != own {
                assert(catalog.groups.contains_key(key));
            }
        }
    }
    assert(members_loaded(after)) by {
        assert forall|key: (Seq<char>, ContentHash), i: int|
            after.groups.contains_key(key) && 0 <= i < after.groups[key].members.len() implies
            after.by_version.contains_key((#[trigger] after.groups[key].members[i], key.1)) by {
            if key == own {
                assert(types.contains(types[i]));
            } else {
                assert(catalog.groups.contains_key(key));
                assert(catalog.by_version.contains_key((catalog.groups[key].members[i], key.1)));
            }
        }
    }
    assert(groups_disjoint(after)) by {
        assert forall|a: (Seq<char>, ContentHash), b: (Seq<char>, ContentHash), member: Seq<char>|
            #![trigger holds_group(after, a, member, a.1), holds_group(after, b, member, b.1)]
            a.1 == b.1 && holds_group(after, a, member, a.1) && holds_group(after, b, member, b.1)
            implies a == b by {
            if a == own && b != own {
                assert(catalog.groups[b].members.contains(member));
            } else if b == own && a != own {
                assert(catalog.groups[a].members.contains(member));
            } else if a != own && b != own {
                assert(holds_group(catalog, a, member, a.1));
                assert(holds_group(catalog, b, member, b.1));
            }
        }
    }
    assert(members_distinct(after)) by {
        assert forall|key: (Seq<char>, ContentHash)| #[trigger]
            after.groups.contains_key(key) implies after.groups[key].members.no_duplicates() by {
            if key == own {
                assert forall|i: int, j: int|
                    0 <= i < types.len() && 0 <= j < types.len() && i != j implies types[i]
                    != types[j] by {
                    if i < j {
                        assert(staged.workflows@[i].workflow_type@
                            != staged.workflows@[j].workflow_type@);
                    } else {
                        assert(staged.workflows@[j].workflow_type@
                            != staged.workflows@[i].workflow_type@);
                    }
                }
            } else {
                assert(catalog.groups.contains_key(key));
            }
        }
    }
    assert(entries_grouped(after)) by {
        assert forall|key: (Seq<char>, ContentHash)| #[trigger]
            after.by_version.contains_key(key) implies grouped(after, key) by {
            if key.1 == version && types.contains(key.0) {
                assert(holds_group(after, own, key.0, key.1));
            } else {
                assert(catalog.by_version.contains_key(key));
                assert(grouped(catalog, key));
                let group = choose|group: (Seq<char>, ContentHash)| #[trigger]
                    holds_group(catalog, group, key.0, key.1);
                assert(holds_group(after, group, key.0, key.1));
            }
        }
    }
}

/// Pointing loaded workflow types at a version keeps the catalog sound.
pub proof fn routing_loaded_types_keeps_the_catalog_sound(
    catalog: CatalogView,
    types: Seq<Seq<char>>,
    version: ContentHash,
)
    requires
        sound(catalog),
        forall|i: int|
            0 <= i < types.len() ==> catalog.by_version.contains_key((#[trigger] types[i], version)),
    ensures
        sound(CatalogView { routed: with_routes(catalog.routed, types, version), ..catalog }),
{
    let after = CatalogView { routed: with_routes(catalog.routed, types, version), ..catalog };
    assert(routes_loaded(after)) by {
        assert forall|name: Seq<char>| #[trigger] after.routed.contains_key(name) implies
            after.by_version.contains_key((name, after.routed[name])) by {
            if types.contains(name) {
                let i = choose|i: int| 0 <= i < types.len() && types[i] == name;
                assert(catalog.by_version.contains_key((types[i], version)));
            } else {
                assert(catalog.routed.contains_key(name));
            }
        }
    }
    lemma_groups_carry_over(catalog, after);
}

/// Routing one loaded version keeps the catalog sound.
pub proof fn routing_a_loaded_version_keeps_the_catalog_sound(
    catalog: CatalogView,
    workflow_type: Seq<char>,
    version: ContentHash,
)
    requires
        sound(catalog),
        catalog.by_version.contains_key((workflow_type, version)),
    ensures
        sound(CatalogView { routed: catalog.routed.insert(workflow_type, version), ..catalog }),
{
    let after = CatalogView {
        routed: catalog.routed.insert(workflow_type, version),
        ..catalog
    };
    assert(routes_loaded(after));
    lemma_groups_carry_over(catalog, after);
}

/// What is said of groups and loaded versions does not depend on routes and pins.
proof fn lemma_groups_carry_over(before: CatalogView, after: CatalogView)
    requires
        groups_keyed(before),
        members_loaded(before),
        groups_disjoint(before),
        members_distinct(before),
        entries_grouped(before),
        after.groups == before.groups,
        after.by_version == before.by_version,
    ensures
        groups_keyed(after),
        members_loaded(after),
        groups_disjoint(after),
        members_distinct(after),
        entries_grouped(after),
{
    assert forall|key: (Seq<char>, ContentHash)| #[trigger]
        after.by_version.contains_key(key) implies grouped(after, key) by {
        assert(grouped(before, key));
        let group = choose|group: (Seq<char>, ContentHash)| #[trigger]
            holds_group(before, group, key.0, key.1);
        assert(holds_group(after, group, key.0, key.1));
    }
    assert forall|a: (Seq<char>, ContentHash), b: (Seq<char>, ContentHash), member: Seq<char>|
        #![trigger holds_group(after, a, member, a.1), holds_group(after, b, member, b.1)]
        a.1 == b.1 && holds_group(after, a, member, a.1) && holds_group(after, b, member, b.1)
        implies a == b by {
        assert(holds_group(before, a, member, a.1));
        assert(holds_group(before, b, member, b.1));
    }
}

/// Swapping out a group that no route points at keeps the catalog sound: no route is
/// left without its version and no group without its members.
pub proof fn swapping_out_keeps_the_catalog_sound(
    catalog: CatalogView,
    key: (Seq<char>, ContentHash),
    workflow_type: Seq<char>,
    version: ContentHash,
)
    requires
        sound(catalog),
        holds_group(catalog, key, workflow_type, version),
        forall|j: int|
            0 <= j < catalog.groups[key].members.len() ==> !routes(
                catalog,
                #[trigger] catalog.groups[key].members[j],
                version,
            ),
    ensures
        sound(swapped_out(catalog, catalog.groups[key], version)),
{
    let group = catalog.groups[key];
    let after = swapped_out(catalog, group, version);
    assert(key == (group.primary, version));
    assert(routes_loaded(after)) by {
        assert forall|name: Seq<char>| #[trigger] after.routed.contains_key(name) implies
            after.by_version.contains_key((name, after.routed[name])) by {
            if catalog.routed[name] == version && group.members.contains(name) {
                let j = choose|j: int| 0 <= j < group.members.len() && group.members[j] == name;
                assert(!routes(catalog, group.members[j], version));
            }
        }
    }
    assert(groups_keyed(after)) by {
        assert forall|k: (Seq<char>, ContentHash)| #[trigger]
            after.groups.contains_key(k) implies k.0 == after.groups[k].primary
            && after.groups[k].members.contains(k.0) by {
            assert(catalog.groups.contains_key(k));
        }
    }
    assert(members_loaded(after)) by {
        assert forall|k: (Seq<char>, ContentHash), i: int|
            after.groups.contains_key(k) && 0 <= i < after.groups[k].members.len() implies
            after.by_version.contains_key((#[trigger] after.groups[k].members[i], k.1)) by {
            let member = catalog.groups[k].members[i];
            assert(catalog.groups.contains_key(k));
            assert(catalog.by_version.contains_key((catalog.groups[k].members[i], k.1)));
            if k.1 == version && group.members.contains(member) {
                assert(catalog.groups[k].members.contains(member));
                assert(holds_group(catalog, k, member, k.1));
                assert(holds_group(catalog, key, member, key.1));
            }
        }
    }
    assert(groups_disjoint(after)) by {
        assert forall|a: (Seq<char>, ContentHash), b: (Seq<char>, ContentHash), member: Seq<char>|
            #![trigger holds_group(after, a, member, a.1), holds_group(after, b, member, b.1)]
            a.1 == b.1 && holds_group(after, a, member, a.1) && holds_group(after, b, member, b.1)
            implies a == b by {
            assert(holds_group(catalog, a, member, a.1));
            assert(holds_group(catalog, b, member, b.1));
        }
    }
    assert(members_distinct(after)) by {
        assert forall|k: (Seq<char>, ContentHash)| #[trigger]
            after.groups.contains_key(k) implies after.groups[k].members.no_duplicates() by {
            assert(catalog.groups.contains_key(k));
        }
    }
    assert(entries_grouped(after)) by {
        assert forall|k: (Seq<char>, ContentHash)| #[trigger]
            after.by_version.contains_key(k) implies grouped(after, k) by {
            assert(catalog.by_version.contains_key(k));
            assert(grouped(catalog, k));
            let other = choose|other: (Seq<char>, ContentHash)| #[trigger]
                holds_group(catalog, other, k.0, k.1);
            assert(holds_group(after, other, k.0, k.1));
        }
    }
}

/// A sequence of replies that all report success.
pub open spec fn all_succeed(replies: Seq<Option<Seq<char>>>) -> bool {
    forall|i: int| 0 <= i < replies.len() ==> (#[trigger] replies[i]) is None
}

/// A load in which every step succeeds is verified after one reply for each pending
/// module and one for each entry, and not before.
pub proof fn a_load_without_failures_verifies(
    load: LoadView,
    staged: StagedLoad,
    replies: Seq<Option<Seq<char>>>,
)
    requires
        staged.wf(),
        load.fits(staged),
        load.registered == 0,
        load.phase == if load.pending.len() == 0 {
            PhaseView::Verifying(0)
        } else {
            PhaseView::Registering
        },
        all_succeed(replies),
    ensures
        ({
            let done = replies.len() as int;
            let modules = load.pending.len() as int;
            let entries = staged.workflows@.len() as int;
            let after = load.after_all(staged, replies);
            &&& after.pending == load.pending
            &&& done < modules ==> after.phase is Registering && after.registered == done
            &&& modules <= done < modules + entries ==> after.phase == PhaseView::Verifying(
                done - modules,
            ) && after.registered == modules
            &&& modules + entries <= done ==> after.phase is Verified
        }),
    decreases replies.len(),
{
    if replies.len() > 0 {
        assert(replies.last() is None);
        let shorter = replies.drop_last();
        assert forall|i: int| 0 <= i < shorter.len() implies (#[trigger] shorter[i]) is None by {
            assert(shorter[i] == replies[i]);
        }
        a_load_without_failures_verifies(load, staged, shorter);
    }
}

/// A load that is given up asks to roll back every module that it registered, the last
/// one first, whatever comes of the rollbacks, and then refuses.
pub proof fn a_given_up_load_unwinds_every_registration(
    load: LoadView,
    staged: StagedLoad,
    reason: Seq<char>,
    replies: Seq<Option<Seq<char>>>,
)
    requires
        0 <= load.registered <= load.pending.len(),
    ensures
        ({
            let after = load.given_up(reason).after_all(staged, replies);
            if replies.len() < load.registered {
                &&& after.pending == load.pending
                &&& after.phase matches PhaseView::RollingBack { remaining, .. }
                &&& remaining == load.registered - replies.len()
                &&& after.asks() == (LoadStep::RollBack {
                    module: load.pending[load.registered - replies.len() - 1],
                })
            } else {
                after.asks() == LoadStep::Refuse
            }
        }),
    decreases replies.len(),
{
    if replies.len() > 0 {
        a_given_up_load_unwinds_every_registration(load, staged, reason, replies.drop_last());
    }
}

/// A load that has failed or is being unwound is never committed.
pub proof fn a_failing_load_is_never_committed(
    load: LoadView,
    staged: StagedLoad,
    replies: Seq<Option<Seq<char>>>,
)
    requires
        load.phase is RollingBack || load.phase is Failed,
    ensures
        load.after_all(staged, replies).asks() != LoadStep::Commit,
        load.after_all(staged, replies).phase is RollingBack || load.after_all(
            staged,
            replies,
        ).phase is Failed,
    decreases replies.len(),
{
    if replies.len() > 0 {
        a_failing_load_is_never_committed(load, staged, replies.drop_last());
    }
}

} // verus!
