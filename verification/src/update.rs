//! Version checks and forced updates.
//!
//! The published manifest names the latest release and the oldest release
//! that may still run. Comparing the running version with both decides
//! whether the application runs as is, offers an update, or refuses to run
//! until it is updated. Fetching the manifest is the caller's I/O.

use vstd::prelude::*;

verus! {

/// Where the manifest is published unless the settings name another place.
pub const DEFAULT_MANIFEST_URL: &'static str = "https://raw.githubusercontent.com/developertugrul/OxideNMS/main/latest.json";

/// Makes `semver::Error` known to the verifier, as an opaque type.
#[verifier::external_type_specification]
#[verifier::external_body]
pub struct ExSemverError(semver::Error);

/// Whether `semver` accepts a text as a version number.
pub uninterp spec fn semver_accepts(text: Seq<char>) -> bool;

/// Whether, for two texts `semver` accepts, the version of the first comes
/// before the version of the second in `semver`'s order.
pub uninterp spec fn semver_precedes(a: Seq<char>, b: Seq<char>) -> bool;

/// Reads a version number with `semver::Version::parse`, keeping only
/// whether it was accepted and, if not, `semver`'s error. Claims that the
/// outcome is `Ok` exactly for the texts `semver` accepts; which error comes
/// back is left unsaid.
#[verifier::external_body]
fn check_version(text: &str) -> (r: Result<(), semver::Error>)
    ensures
        r is Ok <==> semver_accepts(text@),
{
    semver::Version::parse(text).map(|_| ())
}

/// Compares two accepted version numbers with `<` on `semver::Version`
/// (the texts are read again with `semver::Version::parse`, which accepts
/// both). Claims that the result is `semver`'s order on the two texts.
#[verifier::external_body]
fn version_precedes(a: &str, b: &str) -> (r: bool)
    requires
        semver_accepts(a@),
        semver_accepts(b@),
    ensures
        r == semver_precedes(a@, b@),
{
    semver::Version::parse(a).unwrap() < semver::Version::parse(b).unwrap()
}

/// The published release information.
#[derive(Debug, Clone)]
pub struct VersionManifest {
    /// The newest release.
    pub latest_version: String,
    /// Releases older than this one must update before they run.
    pub minimum_version: String,
    /// Where the user downloads the update.
    pub download_url: String,
    /// Release notes, if any.
    pub notes: Option<String>,
}

/// What the application has to do about its version.
#[derive(Debug, Clone)]
pub enum UpdateStatus {
    /// Up to date: run normally.
    UpToDate,
    /// A newer release exists; the user may go on without it.
    Optional(VersionManifest),
    /// The running release is too old; it may not be used until updated.
    Mandatory(VersionManifest),
}

/// Why a version check failed. The first three carry the message of a
/// failure of the fetch, which the caller performs.
#[derive(Debug)]
pub enum UpdateError {
    /// The manifest could not be fetched.
    Http(String),
    /// The manifest could not be read.
    Io(String),
    /// The manifest is not valid JSON of the expected shape.
    Parse(String),
    /// A version number is not one `semver` accepts.
    Version(semver::Error),
}

/// The status for a running version that is, or is not, older than the
/// minimum and than the latest release: too old for the minimum is
/// mandatory, else older than the latest is optional, else up to date.
pub open spec fn status_of(
    below_minimum: bool,
    below_latest: bool,
    manifest: VersionManifest,
) -> UpdateStatus {
    if below_minimum {
        UpdateStatus::Mandatory(manifest)
    } else if below_latest {
        UpdateStatus::Optional(manifest)
    } else {
        UpdateStatus::UpToDate
    }
}

/// The status for a running version below (or not below) the minimum and
/// the latest release.
pub fn status_for(below_minimum: bool, below_latest: bool, manifest: VersionManifest) -> (r:
    UpdateStatus)
    ensures
        r == status_of(below_minimum, below_latest, manifest),
{
    if below_minimum {
        UpdateStatus::Mandatory(manifest)
    } else if below_latest {
        UpdateStatus::Optional(manifest)
    } else {
        UpdateStatus::UpToDate
    }
}

/// Whether all three version numbers of a check are ones `semver` accepts.
pub open spec fn versions_accepted(current: Seq<char>, manifest: VersionManifest) -> bool {
    semver_accepts(current) && semver_accepts(manifest.minimum_version@) && semver_accepts(
        manifest.latest_version@,
    )
}

/// Checks that the running version number is one `semver` accepts (done
/// before the manifest is fetched).
pub fn check_current_version(current: &str) -> (r: Result<(), UpdateError>)
    ensures
        r is Ok <==> semver_accepts(current@),
        r is Err ==> r->Err_0 is Version,
{
    match check_version(current) {
        Ok(()) => Ok(()),
        Err(e) => Err(UpdateError::Version(e)),
    }
}

/// Decides what the running version `current` has to do, given the
/// manifest. Fails when one of the three version numbers is not valid
/// (the running one, the minimum, the latest, checked in that order).
pub fn decide(current: &str, manifest: VersionManifest) -> (r: Result<UpdateStatus, UpdateError>)
    ensures
        r is Ok <==> versions_accepted(current@, manifest),
        r is Err ==> r->Err_0 is Version,
        r is Ok ==> r->Ok_0 == status_of(
            semver_precedes(current@, manifest.minimum_version@),
            semver_precedes(current@, manifest.latest_version@),
            manifest,
        ),
{
    if let Err(e) = check_version(current) {
        return Err(UpdateError::Version(e));
    }
    if let Err(e) = check_version(manifest.minimum_version.as_str()) {
        return Err(UpdateError::Version(e));
    }
    if let Err(e) = check_version(manifest.latest_version.as_str()) {
        return Err(UpdateError::Version(e));
    }
    let below_minimum = version_precedes(current, manifest.minimum_version.as_str());
    let below_latest = version_precedes(current, manifest.latest_version.as_str());
    Ok(status_for(below_minimum, below_latest, manifest))
}

} // verus!
