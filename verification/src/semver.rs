//! The trusted boundary to the `node-semver` crate, which reads ranges and
//! versions in npm's notation. Nothing here is proved: each contract names
//! what the crate computes, so that callers can state their own exactly.

use crate::specifier::is_parsable;
use crate::version::Version;
use vstd::prelude::*;

verus! {

#[verifier::external_type_specification]
#[verifier::external_body]
pub struct ExRange(node_semver::Range);

#[verifier::external_type_specification]
#[verifier::external_body]
pub struct ExSemverError(node_semver::SemverError);

/// The range that a text denotes in npm's notation, if it denotes one.
pub uninterp spec fn parsed_range(text: Seq<char>) -> Option<node_semver::Range>;

/// The numeric core of the lowest version that a range admits, if it
/// admits any.
pub uninterp spec fn lowest_version(range: node_semver::Range) -> Option<Version>;

/// The numeric core of the version that a text denotes, if it is a complete
/// semantic version.
pub uninterp spec fn exact_version(text: Seq<char>) -> Option<Version>;

/// `Range::parse`: succeeds exactly on the texts that denote a range, with
/// that range. The parser does not return on a text in which a piece starts
/// with `=` before a wildcard, or with `~` before a wildcard or before a
/// number, a wildcard and a number; the precondition leaves those texts out.
#[verifier::external_body]
pub(crate) fn parse_range(text: &str) -> (r: Result<node_semver::Range, node_semver::SemverError>)
    requires
        is_parsable(text@),
    ensures
        r matches Ok(range) ==> parsed_range(text@) == Some(range),
        r is Err ==> parsed_range(text@) is None,
{
    node_semver::Range::parse(text)
}

/// `Range::min_version`, reduced to `major`, `minor` and `patch`; a
/// pre-release tag on the lowest version is not carried over.
#[verifier::external_body]
pub(crate) fn range_floor(range: &node_semver::Range) -> (r: Option<Version>)
    ensures
        r == lowest_version(*range),
{
    range.min_version().map(|v| Version { major: v.major, minor: v.minor, patch: v.patch })
}

/// `Version::parse`, reduced to `major`, `minor` and `patch`; pre-release
/// and build tags are accepted and not carried over.
#[verifier::external_body]
pub(crate) fn parse_version(text: &str) -> (r: Result<Version, node_semver::SemverError>)
    ensures
        r matches Ok(v) ==> exact_version(text@) == Some(v),
        r is Err ==> exact_version(text@) is None,
{
    node_semver::Version::parse(text).map(
        |v| Version { major: v.major, minor: v.minor, patch: v.patch },
    )
}

} // verus!
