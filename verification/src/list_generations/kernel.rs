//! Kernel versions, read as semantic versions by `semver`.

use vstd::prelude::*;

verus! {

/// A semantic version: `major.minor.patch`, with what may follow behind a `-`
/// and behind a `+`.
#[derive(Debug, Clone, PartialEq, Eq)]
pub struct KernelVersion {
    pub major: u64,
    pub minor: u64,
    pub patch: u64,
    pub pre: String,
    pub build: String,
}

/// A semantic version as mathematics sees it.
pub struct SemVer {
    pub major: u64,
    pub minor: u64,
    pub patch: u64,
    pub pre: Seq<char>,
    pub build: Seq<char>,
}

impl View for KernelVersion {
    type V = SemVer;

    open spec fn view(&self) -> SemVer {
        SemVer {
            major: self.major,
            minor: self.minor,
            patch: self.patch,
            pre: self.pre@,
            build: self.build@,
        }
    }
}

/// What `semver` reads in a text: a version, or nothing where the text is no
/// semantic version.
pub uninterp spec fn semver_of(text: Seq<char>) -> Option<SemVer>;

/// An optional version as mathematics sees it.
pub open spec fn version_of(version: Option<KernelVersion>) -> Option<SemVer> {
    match version {
        Some(version) => Some(version@),
        None => None,
    }
}

/// Calls `semver::Version::parse` on the text and copies the fields of what
/// it gives. Trusted: the result is the version that `semver_of` names for
/// the text, and `None` where the parse fails.
#[verifier::external_body]
pub(crate) fn parse_semver(text: &str) -> (r: Option<KernelVersion>)
    ensures
        version_of(r) == semver_of(text@),
{
    match semver::Version::parse(text) {
        Ok(v) => Some(
            KernelVersion {
                major: v.major,
                minor: v.minor,
                patch: v.patch,
                pre: v.pre.as_str().to_owned(),
                build: v.build.as_str().to_owned(),
            },
        ),
        Err(_) => None,
    }
}

} // verus!
