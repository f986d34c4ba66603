//! A documentation-health auditor: scans an in-memory snapshot of a markdown
//! tree, runs four structural checks (inline cross-references, required hub
//! sections, wikilink resolution, freshness) and reduces them to a single
//! 0-100 health score with a status label.

pub mod clock;
pub mod doc;
pub mod inline;
pub mod policy;
pub mod related;
pub mod report;
pub mod resolve;
pub mod stale;
pub mod text;
pub mod wikilink;
