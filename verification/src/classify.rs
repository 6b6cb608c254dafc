//! Deciding whether a dependency has an update, and how large the step is.
//!
//! A declared specifier is read as a range; the lowest version that the
//! range admits is compared with the latest published version, component by
//! component.

use crate::error::UpdateError;
use crate::semver::{
    exact_version, lowest_version, parse_range, parse_version, parsed_range, range_floor,
};
use crate::specifier::{is_parsable, parsable};
use crate::text::{is_numeric, numeric};
use crate::version::Version;
use vstd::prelude::*;

verus! {

/// How far the latest version is ahead of the declared one.
#[derive(Clone, Copy, Debug, PartialEq, Eq, Structural)]
pub enum Severity {
    /// The major number grew.
    Major,
    /// The major number is the same and the minor number grew.
    Minor,
    /// Only the patch number grew.
    Patch,
    /// The latest version is not ahead.
    Unchanged,
}

/// The verdict on one dependency, as a mathematical value.
pub ghost struct Verdict {
    pub update_available: bool,
    pub severity: Severity,
    pub breaking: bool,
    pub formatted_latest: Seq<char>,
}

/// The verdict on one dependency.
#[derive(Debug)]
pub struct Classification {
    /// Whether the latest version is strictly ahead of the declared one.
    pub update_available: bool,
    pub severity: Severity,
    /// Whether the step may break dependents: a major step, or a minor step
    /// below version 1.
    pub breaking: bool,
    /// The specifier's prefix followed by the latest version.
    pub formatted_latest: String,
}

impl View for Classification {
    type V = Verdict;

    open spec fn view(&self) -> Verdict {
        Verdict {
            update_available: self.update_available,
            severity: self.severity,
            breaking: self.breaking,
            formatted_latest: self.formatted_latest@,
        }
    }
}

/// The wildcard specifier, which admits every version.
pub open spec fn is_wildcard(specifier: Seq<char>) -> bool {
    specifier == seq!['*']
}

/// The operator in front of a specifier: its first character unless that is
/// numeric, and nothing for an empty specifier.
pub open spec fn prefix_of(specifier: Seq<char>) -> Seq<char> {
    if specifier.len() > 0 && !is_numeric(specifier[0]) {
        seq![specifier[0]]
    } else {
        Seq::empty()
    }
}

/// The lowest version that satisfies a specifier, read as a range. A
/// specifier that the range parser cannot be given has none.
pub open spec fn minimum_version(specifier: Seq<char>) -> Option<Version> {
    if !is_parsable(specifier) {
        None
    } else {
        match parsed_range(specifier) {
            Some(range) => lowest_version(range),
            None => None,
        }
    }
}

/// The size of the step from `declared` to `latest`.
pub open spec fn severity_of(declared: Version, latest: Version) -> Severity {
    if !latest.exceeds(declared) {
        Severity::Unchanged
    } else if latest.major > declared.major {
        Severity::Major
    } else if latest.minor > declared.minor {
        Severity::Minor
    } else {
        Severity::Patch
    }
}

/// Whether a step of the given size from `declared` may break dependents.
pub open spec fn is_breaking(declared: Version, severity: Severity) -> bool {
    severity is Major || (severity is Minor && declared.major == 0)
}

/// The verdict for a prefix, the lowest declared version and the latest one.
pub open spec fn verdict_of(prefix: Seq<char>, declared: Version, latest: Version) -> Verdict {
    Verdict {
        update_available: latest.exceeds(declared),
        severity: severity_of(declared, latest),
        breaking: is_breaking(declared, severity_of(declared, latest)),
        formatted_latest: prefix + latest.text(),
    }
}

/// The verdict for the wildcard: never an update, whatever the registry says.
pub open spec fn wildcard_verdict(specifier: Seq<char>) -> Verdict {
    Verdict {
        update_available: false,
        severity: Severity::Unchanged,
        breaking: false,
        formatted_latest: prefix_of(specifier),
    }
}

/// The verdict for a declared specifier and the text of the latest version.
///
/// The wildcard is settled before anything is parsed. Otherwise the
/// specifier must be a range with a lowest version, and then the latest
/// version must be exact; the first of the two that fails is reported.
pub open spec fn classification(specifier: Seq<char>, latest: Seq<char>) -> Result<
    Verdict,
    UpdateError,
> {
    if is_wildcard(specifier) {
        Ok(wildcard_verdict(specifier))
    } else {
        match minimum_version(specifier) {
            None => Err(UpdateError::RangeParseError),
            Some(declared) => match exact_version(latest) {
                None => Err(UpdateError::VersionParseError),
                Some(version) => Ok(verdict_of(prefix_of(specifier), declared, version)),
            },
        }
    }
}

/// Whether a specifier is the wildcard `*`.
pub fn wildcard(specifier: &str) -> (r: bool)
    ensures
        r == is_wildcard(specifier@),
{
    if specifier.unicode_len() != 1 {
        return false;
    }
    let r = specifier.get_char(0) == '*';
    assert(r ==> specifier@ =~= seq!['*']);
    r
}

/// The operator in front of a specifier, kept as written.
pub fn specifier_prefix(specifier: &str) -> (prefix: String)
    ensures
        prefix@ == prefix_of(specifier@),
{
    if specifier.unicode_len() > 0 && !numeric(specifier.get_char(0)) {
        let first = specifier.substring_char(0, 1);
        assert(first@ =~= seq![specifier@[0]]);
        first.to_owned()
    } else {
        String::new()
    }
}

/// Compares the lowest declared version with the latest one.
pub fn classify_versions(prefix: &str, declared: &Version, latest: &Version) -> (c: Classification)
    ensures
        c@ == verdict_of(prefix@, *declared, *latest),
{
    let update_available = latest.is_newer_than(declared);
    let severity = if !update_available {
        Severity::Unchanged
    } else if latest.major > declared.major {
        Severity::Major
    } else if latest.minor > declared.minor {
        Severity::Minor
    } else {
        Severity::Patch
    };
    let breaking = match severity {
        Severity::Major => true,
        Severity::Minor => declared.major == 0,
        _ => false,
    };
    let mut formatted_latest = prefix.to_owned();
    latest.push_onto(&mut formatted_latest);
    Classification { update_available, severity, breaking, formatted_latest }
}

/// The lowest version that satisfies a specifier, read as a range.
pub fn declared_minimum(specifier: &str) -> (r: Result<Version, UpdateError>)
    ensures
        r == match minimum_version(specifier@) {
            Some(v) => Ok::<Version, UpdateError>(v),
            None => Err(UpdateError::RangeParseError),
        },
{
    if !parsable(specifier) {
        return Err(UpdateError::RangeParseError);
    }
    match parse_range(specifier) {
        Err(_) => Err(UpdateError::RangeParseError),
        Ok(range) => match range_floor(&range) {
            None => Err(UpdateError::RangeParseError),
            Some(v) => Ok(v),
        },
    }
}

/// Reads the text of an exact version.
pub fn latest_version(text: &str) -> (r: Result<Version, UpdateError>)
    ensures
        r == match exact_version(text@) {
            Some(v) => Ok::<Version, UpdateError>(v),
            None => Err(UpdateError::VersionParseError),
        },
{
    match parse_version(text) {
        Err(_) => Err(UpdateError::VersionParseError),
        Ok(v) => Ok(v),
    }
}

/// Decides whether `latest` is an update for a dependency declared as
/// `specifier`, and of which size.
pub fn classify(specifier: &str, latest: &str) -> (r: Result<Classification, UpdateError>)
    ensures
        match classification(specifier@, latest@) {
            Ok(verdict) => r matches Ok(c) && c@ == verdict,
            Err(e) => r == Err::<Classification, UpdateError>(e),
        },
{
    let prefix = specifier_prefix(specifier);
    if wildcard(specifier) {
        return Ok(
            Classification {
                update_available: false,
                severity: Severity::Unchanged,
                breaking: false,
                formatted_latest: prefix,
            },
        );
    }
    let declared = match declared_minimum(specifier) {
        Err(e) => { return Err(e); },
        Ok(v) => v,
    };
    let version = match latest_version(latest) {
        Err(e) => { return Err(e); },
        Ok(v) => v,
    };
    Ok(classify_versions(prefix.as_str(), &declared, &version))
}

/// An update is reported exactly when the latest version is strictly ahead
/// of the lowest version that the specifier admits, and never for the
/// wildcard. A reported update always has a severity.
pub proof fn lemma_update_iff_ahead(specifier: Seq<char>, latest: Seq<char>)
    requires
        classification(specifier, latest) is Ok,
    ensures
        classification(specifier, latest)->Ok_0.update_available ==> !(classification(
            specifier,
            latest,
        )->Ok_0.severity is Unchanged),
        ({
            let verdict = classification(specifier, latest)->Ok_0;
            if is_wildcard(specifier) {
                !verdict.update_available
            } else {
                &&& minimum_version(specifier) is Some
                &&& exact_version(latest) is Some
                &&& verdict.update_available == exact_version(latest)->0.exceeds(
                    minimum_version(specifier)->0,
                )
            }
        }),
{
}

/// The formatted latest version starts with the specifier's own prefix:
/// its first character when that is not numeric, and nothing otherwise. Of
/// any specifier but the wildcard, the latest version follows at once.
pub proof fn lemma_prefix_is_kept(specifier: Seq<char>, latest: Seq<char>)
    requires
        classification(specifier, latest) is Ok,
    ensures
        ({
            let formatted = classification(specifier, latest)->Ok_0.formatted_latest;
            let prefix = prefix_of(specifier);
            &&& prefix.len() <= formatted.len()
            &&& formatted.take(prefix.len() as int) == prefix
            &&& specifier.len() > 0 && !is_numeric(specifier[0]) ==> formatted[0] == specifier[0]
            &&& !is_wildcard(specifier) ==> formatted == prefix + exact_version(latest)->0.text()
            &&& !is_wildcard(specifier) && specifier.len() > 0 && is_numeric(specifier[0])
                ==> formatted == exact_version(latest)->0.text()
        }),
{
    let formatted = classification(specifier, latest)->Ok_0.formatted_latest;
    let prefix = prefix_of(specifier);
    assert(formatted.take(prefix.len() as int) =~= prefix);
    if !is_wildcard(specifier) {
        let text = exact_version(latest)->0.text();
        if prefix.len() == 0 {
            assert(prefix + text =~= text);
        }
    }
}

/// The first component that grew decides the severity: a larger major
/// number gives `Major`; with equal major numbers a larger minor number
/// gives `Minor`, which is breaking below version 1; with equal major and
/// minor numbers a larger patch number gives `Patch`.
pub proof fn lemma_severity_order(declared: Version, latest: Version)
    ensures
        latest.major > declared.major ==> severity_of(declared, latest) is Major,
        latest.major == declared.major && latest.minor > declared.minor ==> severity_of(
            declared,
            latest,
        ) is Minor,
        latest.major == declared.major && latest.minor > declared.minor ==> (is_breaking(
            declared,
            severity_of(declared, latest),
        ) <==> declared.major == 0),
        latest.major == declared.major && latest.minor == declared.minor && latest.patch
            > declared.patch ==> severity_of(declared, latest) is Patch,
        latest.exceeds(declared) <==> !(severity_of(declared, latest) is Unchanged),
        severity_of(declared, latest) is Major ==> is_breaking(
            declared,
            severity_of(declared, latest),
        ),
        severity_of(declared, latest) is Patch ==> !is_breaking(
            declared,
            severity_of(declared, latest),
        ),
{
}

} // verus!
