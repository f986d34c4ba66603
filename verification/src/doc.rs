//! The data model of one audit run: the immutable document snapshot that the
//! checks read, and the report values they produce.

use vstd::prelude::*;

verus! {

/// One markdown document of the scanned tree: its path relative to the
/// scanned root, its raw text, and its last-modified time in seconds since
/// the Unix epoch. Immutable for the duration of one audit run.
#[derive(Debug, Clone)]
pub struct Doc {
    pub path: Vec<u8>,
    pub content: Vec<u8>,
    pub modified_secs: u64,
}

/// A fatal audit error: no report is produced when one arises.
#[derive(Debug, Clone, PartialEq, Eq)]
pub enum AuditError {
    /// A required hub document is absent from the snapshot; the payload is
    /// its expected relative path.
    MissingRequiredDocument(Vec<u8>),
}

/// The outcome of one check.
#[derive(Debug, Clone, Copy, PartialEq, Eq)]
pub enum CheckOutcome {
    Pass,
    Fail,
    Warn,
}

/// The health tier derived from the score.
#[derive(Debug, Clone, Copy, PartialEq, Eq)]
pub enum Status {
    Healthy,
    Warning,
    Critical,
}

/// One unresolved wikilink: the path of the document holding it and the
/// link's target as written (fragment split off, whitespace trimmed, but
/// before any prefix stripping).
#[derive(Debug, Clone, PartialEq, Eq)]
pub struct BrokenLink {
    pub source: Vec<u8>,
    pub target: Vec<u8>,
}

/// The outcome of each of the four checks; `broken_count` carries the number
/// of unresolved wikilinks behind the `broken_wikilinks` outcome.
#[derive(Debug, Clone, Copy, PartialEq, Eq)]
pub struct Checks {
    pub inline_links: CheckOutcome,
    pub related_sections: CheckOutcome,
    pub broken_wikilinks: CheckOutcome,
    pub broken_count: usize,
    pub stale_docs: CheckOutcome,
}

/// The aggregated result of one audit run: a fixed schema version, the
/// clamped 0-100 score, the status tier, and the four check outcomes.
#[derive(Debug, Clone, Copy, PartialEq, Eq)]
pub struct DoctorReport {
    pub version: u8,
    pub score: u8,
    pub status: Status,
    pub checks: Checks,
}

} // verus!
