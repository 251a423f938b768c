//! Version ranges and versions, as the `semver` crate defines them.
//!
//! The grammar of ranges and the matching rules belong to `semver`. This
//! module declares its types and states, without proof, what its functions
//! return.

use vstd::prelude::*;
use semver::{Version, VersionReq};

verus! {

/// `semver::Version`, carried through as an opaque value.
#[verifier::external_type_specification]
#[verifier::external_body]
pub struct ExVersion(semver::Version);

/// `semver::VersionReq`, carried through as an opaque value.
#[verifier::external_type_specification]
#[verifier::external_body]
pub struct ExVersionReq(semver::VersionReq);

/// `semver::Error`, the reason a text is no range.
#[verifier::external_type_specification]
#[verifier::external_body]
pub struct ExSemverError(semver::Error);

/// The range that `semver::VersionReq::parse` reads from a text, or `None`
/// where it rejects the text.
pub uninterp spec fn range_of_text(text: Seq<char>) -> Option<VersionReq>;

/// The version that `semver::Version::parse` reads from a text, or `None`
/// where it rejects the text.
pub uninterp spec fn version_of_text(text: Seq<char>) -> Option<Version>;

/// Whether `semver::VersionReq::matches` accepts a version for a range.
pub uninterp spec fn range_admits(range: VersionReq, version: Version) -> bool;

/// `semver::VersionReq::parse`: trusted to be a function of the text alone,
/// succeeding exactly where `range_of_text` gives a range, and then with
/// that range.
pub assume_specification[ VersionReq::parse ](text: &str) -> (r: Result<VersionReq, semver::Error>)
    ensures
        r.is_ok() == range_of_text(text@).is_some(),
        r.is_ok() ==> range_of_text(text@) == Some(r.unwrap()),
;

/// `semver::Version::parse`: trusted to be a function of the text alone,
/// succeeding exactly where `version_of_text` gives a version, and then with
/// that version.
pub assume_specification[ Version::parse ](text: &str) -> (r: Result<Version, semver::Error>)
    ensures
        r.is_ok() == version_of_text(text@).is_some(),
        r.is_ok() ==> version_of_text(text@) == Some(r.unwrap()),
;

/// `semver::VersionReq::matches`: trusted to be a function of the range and
/// the version alone, named `range_admits`.
pub assume_specification[ VersionReq::matches ](range: &VersionReq, version: &Version) -> (r: bool)
    ensures
        r == range_admits(*range, *version),
;

/// `Clone` for `semver::VersionReq`: trusted to give back an equal range.
pub assume_specification[ <VersionReq as Clone>::clone ](range: &VersionReq) -> (r: VersionReq)
    ensures
        r == *range,
;

} // verus!
