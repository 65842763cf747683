//! Workflow package loading surfaces.

use vstd::prelude::*;
use vstd::string::*;

use crate::content_hash::{canonical_text_determines_the_hash, hash_text, ContentHash};
use crate::error::{is_load_error, load_error, EngineError};
use crate::event::PackageVersion;
use crate::text::concat5;

/// Workflow package catalog.
pub mod catalog;
/// Durable persistence for runtime-deployed packages.
pub mod persistence;
/// Listing record for loaded workflow versions.
pub mod version_info;
/// Package staging and workflow entry discovery.
pub mod load;
/// What loading, routing, unloading and reloading do to what is loaded.
pub mod loader_laws;

pub use crate::loader::load::{LoadOutcome, LoadedWorkflow};

verus! {

/// Canonical durable form of a loaded package version.
pub fn package_version_of(hash: &ContentHash) -> (version: PackageVersion)
    ensures
        version.text@ == hash_text(*hash),
{
    PackageVersion::new(hash.text())
}

/// Why a recorded package version is refused.
pub open spec fn malformed_version_text(
    workflow_type: Seq<char>,
    version: Seq<char>,
) -> Seq<char> {
    "workflow `"@ + workflow_type + "` recorded package version `"@ + version
        + "` that is not a canonical content hash: expected 64 lower-case hexadecimal digits"@
}

/// Parses a durably recorded package version back to a typed content hash.
///
/// # Errors
///
/// [`EngineError::Load`], naming the workflow type and the malformed version text,
/// when the recorded value is not a canonical content hash.
pub fn parse_package_version(
    workflow_type: &str,
    version: &PackageVersion,
) -> (hash: Result<ContentHash, EngineError>)
    ensures
        match hash {
            Ok(hash) => version.text@ == hash_text(hash),
            Err(error) => {
                &&& forall|h: ContentHash| version.text@ != #[trigger] hash_text(h)
                &&& is_load_error(error, malformed_version_text(workflow_type@, version.text@))
            },
        },
{
    match ContentHash::parse(version.text.as_str()) {
        Some(hash) => Ok(hash),
        None => Err(
            load_error(
                concat5(
                    "workflow `",
                    workflow_type,
                    "` recorded package version `",
                    version.text.as_str(),
                    "` that is not a canonical content hash: expected 64 lower-case hexadecimal digits",
                ),
            ),
        ),
    }
}

/// A text read back as a version is the version that was rendered: the text that
/// [`package_version_of`] gives for one hash is the text of no other.
pub proof fn rendered_versions_read_back(rendered: ContentHash, read: ContentHash)
    requires
        hash_text(rendered) == hash_text(read),
    ensures
        rendered == read,
{
    canonical_text_determines_the_hash(rendered, read);
}

} // verus!
