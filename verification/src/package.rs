//! Workflow packages as the loader reads them.

use vstd::prelude::*;
use vstd::string::*;

use crate::clock::TimeSpan;
use crate::content_hash::{hash_text, ContentHash};
use crate::text::concat3;

verus! {

/// Author-declared version label of a manifest.
#[derive(Debug, PartialEq, Eq)]
pub struct ManifestVersion {
    /// The label.
    pub text: String,
}

impl Clone for ManifestVersion {
    fn clone(&self) -> (copy: Self)
        ensures
            copy == *self,
    {
        ManifestVersion { text: self.text.clone() }
    }
}

/// Canonical digest of a manifest, in textual form.
#[derive(Debug, PartialEq, Eq)]
pub struct ManifestDigest {
    /// The digest's text.
    pub text: String,
}

impl Clone for ManifestDigest {
    fn clone(&self) -> (copy: Self)
        ensures
            copy == *self,
    {
        ManifestDigest { text: self.text.clone() }
    }
}

/// A further workflow that a package implements besides its primary one.
#[derive(Debug, PartialEq, Eq)]
pub struct WorkflowEntry {
    /// Logical workflow type.
    pub workflow_type: String,
    /// Module that holds the entry function.
    pub entry_module: String,
    /// Function that runs the workflow.
    pub entry_function: String,
    /// Timeout that the manifest carries for the workflow.
    pub timeout: Option<TimeSpan>,
}

/// The parts of a package's manifest that the loader reads.
#[derive(Debug, PartialEq, Eq)]
pub struct Manifest {
    /// Module that holds the primary entry function; also the primary workflow type.
    pub entry_module: String,
    /// Function that runs the primary workflow.
    pub entry_function: String,
    /// Timeout that the manifest carries for the primary workflow.
    pub timeout: Option<TimeSpan>,
    /// Author-declared version label.
    pub version: ManifestVersion,
    /// Further workflows of the package.
    pub additional_workflows: Vec<WorkflowEntry>,
}

/// One compiled module of a package.
#[derive(Debug, PartialEq, Eq)]
pub struct BeamModule {
    /// Logical module name.
    pub name: String,
    /// Compiled code.
    pub bytes: Vec<u8>,
}

/// A validated workflow package.
#[derive(Debug, PartialEq, Eq)]
pub struct Package {
    /// The manifest.
    pub manifest: Manifest,
    /// The compiled modules.
    pub beams: Vec<BeamModule>,
    /// Identity of the package version.
    pub content_hash: ContentHash,
    /// Whether the identity commits to the timeouts that the manifest carries.
    pub commits_to_timeouts: bool,
}

/// The name under which a module of a package version is deployed.
pub open spec fn deployed(name: Seq<char>, version: ContentHash) -> Seq<char> {
    name + "$"@ + hash_text(version)
}

/// The name under which a module of a package version is deployed.
pub fn deployed_name(name: &str, version: &ContentHash) -> (text: String)
    ensures
        text@ == deployed(name@, *version),
{
    concat3(name, "$", version.text().as_str())
}

/// Some module has the name.
pub open spec fn has_module(beams: Seq<BeamModule>, name: Seq<char>) -> bool {
    exists|i: int| 0 <= i < beams.len() && (#[trigger] beams[i]).name@ == name
}

impl Package {
    /// The timeout that arms a deadline, where the package declares one: a value
    /// that the identity does not commit to arms nothing.
    pub open spec fn arming(&self, timeout: Option<TimeSpan>) -> Option<TimeSpan> {
        if self.commits_to_timeouts {
            timeout
        } else {
            None
        }
    }

    /// Whether the package's identity commits to its timeouts.
    pub fn has_declared_timeout(&self) -> (declared: bool)
        ensures
            declared == self.commits_to_timeouts,
    {
        self.commits_to_timeouts
    }

    /// The declared timeout of an entry that carries the given value.
    pub fn declared_entry_timeout(&self, timeout: Option<TimeSpan>) -> (declared: Option<TimeSpan>)
        ensures
            declared == self.arming(timeout),
    {
        if self.has_declared_timeout() {
            timeout
        } else {
            None
        }
    }

    /// The declared timeout of the primary workflow.
    pub fn declared_timeout(&self) -> (declared: Option<TimeSpan>)
        ensures
            declared == self.arming(self.manifest.timeout),
    {
        self.declared_entry_timeout(self.manifest.timeout)
    }

    /// The name under which the primary entry module is deployed.
    pub fn deployed_entry_module(&self) -> (name: String)
        ensures
            name@ == deployed(self.manifest.entry_module@, self.content_hash),
    {
        deployed_name(self.manifest.entry_module.as_str(), &self.content_hash)
    }

    /// Whether the package holds a module of that name.
    pub fn holds_module(&self, name: &String) -> (holds: bool)
        ensures
            holds == has_module(self.beams@, name@),
    {
        let mut i: usize = 0;
        while i < self.beams.len()
            invariant
                0 <= i <= self.beams@.len(),
                forall|j: int| 0 <= j < i ==> (#[trigger] self.beams@[j]).name@ != name@,
            decreases self.beams.len() - i,
        {
            if self.beams[i].name == *name {
                return true;
            }
            i = i + 1;
        }
        false
    }
}

} // verus!
