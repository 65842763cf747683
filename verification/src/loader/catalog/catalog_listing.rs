//! Listing the loaded versions with their route flags.

use vstd::prelude::*;
use vstd::string::*;
use vstd::utf8::encode_utf8;

use crate::clock::earlier;
use crate::content_hash::{hash_text, ContentHash};
use crate::loader::catalog::catalog_unload::routes;
use crate::loader::catalog::{CatalogView, WorkflowCatalog};
use crate::loader::version_info::WorkflowVersionInfo;
use crate::sort::{in_order, lemma_bytes_order, sort, Ordered};
use crate::table::lemma_entry_map;
use crate::text::{comes_before, text_less};

verus! {

/// One version is listed strictly before another: by workflow type, then by when it
/// was loaded, then by the text of its hash.
pub open spec fn listed_before(a: WorkflowVersionInfo, b: WorkflowVersionInfo) -> bool {
    if text_less(a.workflow_type@, b.workflow_type@) {
        true
    } else if text_less(b.workflow_type@, a.workflow_type@) {
        false
    } else if earlier(a.loaded_at, b.loaded_at) {
        true
    } else if earlier(b.loaded_at, a.loaded_at) {
        false
    } else {
        text_less(hash_text(a.content_hash), hash_text(b.content_hash))
    }
}

/// The order of texts for three texts.
proof fn lemma_text_order(a: Seq<char>, b: Seq<char>, c: Seq<char>)
    ensures
        !(text_less(a, b) && text_less(b, a)),
        !text_less(b, a) && !text_less(c, b) ==> !text_less(c, a),
        !text_less(c, b) && !text_less(b, a) ==> !text_less(c, a),
        text_less(a, b) && !text_less(c, b) ==> text_less(a, c) || !text_less(c, a),
{
    lemma_bytes_order(encode_utf8(a), encode_utf8(b), encode_utf8(c));
}

impl Ordered for WorkflowVersionInfo {
    open spec fn may_precede(&self, other: &Self) -> bool {
        !listed_before(*other, *self)
    }

    proof fn order_is_total(a: &Self, b: &Self) {
        lemma_text_order(a.workflow_type@, b.workflow_type@, b.workflow_type@);
        lemma_text_order(
            hash_text(a.content_hash),
            hash_text(b.content_hash),
            hash_text(b.content_hash),
        );
    }

    proof fn order_is_transitive(a: &Self, b: &Self, c: &Self) {
        let (ta, tb, tc) = (a.workflow_type@, b.workflow_type@, c.workflow_type@);
        let (ha, hb, hc) = (
            hash_text(a.content_hash),
            hash_text(b.content_hash),
            hash_text(c.content_hash),
        );
        lemma_text_order(ta, tb, tc);
        lemma_text_order(tc, tb, ta);
        lemma_text_order(ta, tc, tb);
        lemma_text_order(tb, ta, tc);
        lemma_text_order(tb, tc, ta);
        lemma_text_order(tc, ta, tb);
        lemma_text_order(ha, hb, hc);
    }

    fn precedes(&self, other: &Self) -> (precedes: bool) {
        if comes_before(other.workflow_type.as_str(), self.workflow_type.as_str()) {
            false
        } else if comes_before(self.workflow_type.as_str(), other.workflow_type.as_str()) {
            true
        } else if self.loaded_at.is_after(&other.loaded_at) {
            false
        } else if other.loaded_at.is_after(&self.loaded_at) {
            true
        } else {
            let own = self.content_hash.text();
            let others = other.content_hash.text();
            !comes_before(others.as_str(), own.as_str())
        }
    }
}

/// The listing record of a loaded version.
pub open spec fn reports(
    catalog: CatalogView,
    key: (Seq<char>, ContentHash),
    info: WorkflowVersionInfo,
) -> bool {
    let entry = catalog.by_version[key];
    &&& info.workflow_type@ == entry.workflow@.workflow_type
    &&& info.content_hash == entry.workflow@.version
    &&& info.deployed_entry_module@ == entry.workflow@.deployed_entry_module
    &&& info.entry_function@ == entry.workflow@.entry_function
    &&& info.manifest_version == entry.manifest_version
    &&& info.loaded_at == entry.loaded_at
    &&& info.route_active == routes(catalog, entry.workflow@.workflow_type, entry.workflow@.version)
}

impl WorkflowCatalog {
    /// Every loaded version with its route flag, sorted by `(type, loaded_at)` and then
    /// by the text of the content hash.
    pub fn versions(&self) -> (versions: Vec<WorkflowVersionInfo>)
        requires
            self.wf(),
        ensures
            in_order(versions@),
            exists|listed: Seq<WorkflowVersionInfo>|
                {
                    &&& versions@.to_multiset() == #[trigger] listed.to_multiset()
                    &&& versions@.len() == listed.len()
                    &&& listed.len() == self.loaded_keys().len()
                    &&& forall|i: int|
                        0 <= i < listed.len() ==> reports(
                            self@,
                            self.loaded_keys()[i],
                            #[trigger] listed[i],
                        )
                },
            self.loaded_keys().no_duplicates(),
            forall|key: (Seq<char>, ContentHash)|
                self@.by_version.contains_key(key) <==> #[trigger] self.loaded_keys().contains(key),
    {
        let mut listed: Vec<WorkflowVersionInfo> = Vec::new();
        let ghost entries = self.by_version.entries();
        proof {
            self.lemma_loaded_keys();
            lemma_entry_map(entries);
        }
        let mut i: usize = 0;
        while i < self.by_version.len()
            invariant
                self.wf(),
                entries == self.by_version.entries(),
                0 <= i <= entries.len(),
                listed@.len() == i,
                forall|j: int|
                    0 <= j < entries.len() ==> self@.by_version[(#[trigger] entries[j]).0@]
                        == entries[j].1,
                forall|j: int|
                    0 <= j < i ==> reports(self@, self.loaded_keys()[j], #[trigger] listed@[j]),
            decreases entries.len() - i,
        {
            let entry = &self.by_version.entry(i).1;
            let workflow_type = entry.workflow.workflow_type().to_owned();
            let route_active = match self.routed.get(&workflow_type) {
                Some(active) => active.same(entry.workflow.version()),
                None => false,
            };
            let ghost before = listed@;
            listed.push(
                WorkflowVersionInfo {
                    workflow_type,
                    content_hash: *entry.workflow.version(),
                    deployed_entry_module: entry.workflow.deployed_entry_module().to_owned(),
                    entry_function: entry.workflow.entry_function().to_owned(),
                    manifest_version: entry.manifest_version.clone(),
                    loaded_at: entry.loaded_at,
                    route_active,
                },
            );
            proof {
                assert(self.loaded_keys()[i as int] == entries[i as int].0@);
                assert(reports(self@, self.loaded_keys()[i as int], listed@[i as int]));
                assert forall|j: int| 0 <= j < i + 1 implies reports(
                    self@,
                    self.loaded_keys()[j],
                    #[trigger] listed@[j],
                ) by {
                    if j < i {
                        assert(listed@[j] == before[j]);
                    }
                }
            }
            i = i + 1;
        }
        let ghost unsorted = listed@;
        let versions = sort(listed);
        assert(versions@.to_multiset() == unsorted.to_multiset());
        versions
    }
}

} // verus!
