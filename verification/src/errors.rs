//! The error taxonomy of the library.
//!
//! Every operation is total and explicit: it returns a success value or
//! exactly one of these kinds, and never panics or partially succeeds.

use vstd::prelude::*;

verus! {

/// Why an untrusted build identifier was rejected before any external use.
#[derive(Debug, Clone, Copy, PartialEq, Eq)]
pub enum ValidationError {
    /// The identifier is the empty string.
    EmptyIdentifier,
    /// The identifier holds a character outside the ASCII range;
    /// the first such character is reported.
    NonAsciiCharacter(char),
    /// The first character is not ASCII alphanumeric, which blocks
    /// argument-injection tokens such as a leading `-` and path-traversal
    /// tokens such as a leading `.`.
    InvalidLeadingCharacter(char),
}

/// Why a name-version-release string could not be decomposed.
#[derive(Debug, Clone, Copy, PartialEq, Eq)]
pub enum DecompositionError {
    /// The string holds no `-` at all, so no release can be split off.
    MissingReleaseSeparator,
    /// The text after the last `-` is empty.
    EmptyRelease,
    /// The text before the last `-` holds no further `-`, so no version can
    /// be split off.
    MissingVersionSeparator,
    /// The name component is empty.
    EmptyName,
    /// The version component is empty.
    EmptyVersion,
}

/// Why a raw build report could not be scraped into a record.
#[derive(Debug, Clone, Copy, PartialEq, Eq)]
pub enum ScrapeError {
    /// No `BUILD:` line was found in the report.
    BuildNotFound,
    /// No `RPMs:` section header was found; the header itself is
    /// load-bearing, even when no artifact lines follow it.
    ArtifactSectionMissing,
    /// An artifact line's path holds no final segment to use as a filename.
    MissingArtifactName,
    /// An artifact filename was not decodable text. A report handed over as
    /// a string is already decoded, so scraping a string never produces
    /// this kind; it is kept for boundaries that hand artifacts over in a
    /// rawer form.
    InvalidArtifactName,
    /// An artifact line's path holds no parent segment to use as an
    /// architecture.
    MissingArtifactArch,
    /// An artifact architecture was not decodable text; never produced when
    /// scraping a string, as for `InvalidArtifactName`.
    InvalidArtifactArch,
    /// The digits of a `BUILD:` line do not fit an unsigned 64-bit integer.
    BuildIdOverflow,
    /// The canonical name-version-release reported by the external tool
    /// could not itself be decomposed.
    InvalidCanonicalNvr(DecompositionError),
}

} // verus!
