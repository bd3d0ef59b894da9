//! Semantic version text: validity and ordering, as decided by `semver`.

use core::cmp::Ordering;
use vstd::prelude::*;

verus! {

/// Whether `s` is a version that `semver::Version::parse` accepts.
pub uninterp spec fn semver_valid(s: Seq<char>) -> bool;

/// The order `semver` gives two valid versions.
pub uninterp spec fn semver_order(a: Seq<char>, b: Seq<char>) -> Ordering;

/// The version a package carries when no version record applies to it.
pub open spec fn sentinel_version() -> Seq<char> {
    seq!['0', '.', '0', '.', '0']
}

/// Relies on `semver::Version::parse`: reports whether the text parses.
#[verifier::external_body]
pub(crate) fn parses_as_version(s: &str) -> (r: bool)
    ensures
        r == semver_valid(s@),
{
    semver::Version::parse(s).is_ok()
}

/// Relies on `semver::Version::parse` and the `Ord` of `semver::Version`
/// (major, minor, patch, pre-release, build, in that order of precedence).
#[verifier::external_body]
pub(crate) fn compare_versions(a: &str, b: &str) -> (r: Ordering)
    requires
        semver_valid(a@),
        semver_valid(b@),
    ensures
        r == semver_order(a@, b@),
{
    semver::Version::parse(a).unwrap().cmp(&semver::Version::parse(b).unwrap())
}

/// Whether `b` is a strictly newer version than `a`.
pub open spec fn newer(a: Seq<char>, b: Seq<char>) -> bool {
    semver_order(a, b) == Ordering::Less
}

/// Checks version text and reports whether `semver` accepts it.
pub fn is_valid_version(s: &str) -> (r: bool)
    ensures
        r == semver_valid(s@),
{
    parses_as_version(s)
}

/// Whether `b` is strictly newer than `a`, both being valid versions.
pub fn is_newer(a: &str, b: &str) -> (r: bool)
    requires
        semver_valid(a@),
        semver_valid(b@),
    ensures
        r == newer(a@, b@),
{
    match compare_versions(a, b) {
        Ordering::Less => true,
        _ => false,
    }
}

/// The text of the sentinel version.
pub fn default_version() -> (r: String)
    ensures
        r@ == sentinel_version(),
{
    let r = String::from_str("0.0.0");
    proof {
        reveal_strlit("0.0.0");
    }
    r
}

} // verus!
