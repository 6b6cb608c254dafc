//! The failures that an update run can report.

use vstd::prelude::*;

verus! {

/// Why a manifest, a registry answer or a single dependency was refused.
///
/// The first three and the last concern the manifest as a whole and end the
/// run; the others concern one dependency, which is then left out.
#[derive(Clone, Copy, Debug, PartialEq, Eq, Structural)]
pub enum UpdateError {
    /// No manifest at the expected path.
    ManifestNotFound,
    /// The manifest is not valid JSON.
    ManifestParseError,
    /// The manifest has neither of the two dependency sections.
    NoDependencies,
    /// The registry could not be reached, or did not answer in time.
    NetworkError,
    /// The registry answered with a failure status or an unusable body.
    RegistryError,
    /// A version text is not an exact semantic version.
    VersionParseError,
    /// A specifier is not a range, or no version satisfies it.
    RangeParseError,
    /// The rewritten manifest could not be produced or stored.
    WriteError,
}

impl UpdateError {
    /// Whether the failure ends the whole run, rather than one dependency.
    pub open spec fn is_fatal(self) -> bool {
        self is ManifestNotFound || self is ManifestParseError || self is NoDependencies
            || self is WriteError
    }

    /// Whether the failure ends the whole run, rather than one dependency.
    pub fn fatal(&self) -> (r: bool)
        ensures
            r == self.is_fatal(),
    {
        match self {
            UpdateError::ManifestNotFound => true,
            UpdateError::ManifestParseError => true,
            UpdateError::NoDependencies => true,
            UpdateError::WriteError => true,
            _ => false,
        }
    }
}

} // verus!
