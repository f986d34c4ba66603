//! End-to-end tests of the doctor report: the spec scenarios, the scoring
//! table, and the fatal-error paths.

use openkit_doctor::doc::{AuditError, CheckOutcome, Doc, Status};
use openkit_doctor::policy::{default_required_hubs, docs_prefix};
use openkit_doctor::report::build_doctor_report;

const NOW: u64 = 1_700_000_000;

fn doc(path: &str, content: &str) -> Doc {
    Doc {
        path: path.as_bytes().to_vec(),
        content: content.as_bytes().to_vec(),
        modified_secs: NOW,
    }
}

/// All six required hubs, each holding a "## Related" heading and no
/// wikilink before it.
fn hub_docs() -> Vec<Doc> {
    [
        "HUB-DOCS.md",
        "CONTEXT.md",
        "SECURITY.md",
        "QUALITY_GATES.md",
        "requirements/HUB-REQUIREMENTS.md",
        "sprint/HUB-SPRINTS.md",
    ]
    .iter()
    .map(|p| doc(p, "# Hub\n\n## Related\n- nothing yet\n"))
    .collect()
}

fn audit(docs: &Vec<Doc>) -> Result<(openkit_doctor::doc::DoctorReport, Vec<openkit_doctor::doc::BrokenLink>), AuditError> {
    build_doctor_report(docs, NOW, &default_required_hubs(), &docs_prefix())
}

#[test]
fn all_checks_pass_scores_100() {
    let mut docs = hub_docs();
    docs.push(doc("guide.md", "See [[CONTEXT.md]] for context.\n"));
    let (report, broken) = audit(&docs).unwrap();
    assert_eq!(report.version, 1);
    assert_eq!(report.score, 100);
    assert_eq!(report.status, Status::Healthy);
    assert_eq!(report.checks.inline_links, CheckOutcome::Pass);
    assert_eq!(report.checks.related_sections, CheckOutcome::Pass);
    assert_eq!(report.checks.broken_wikilinks, CheckOutcome::Pass);
    assert_eq!(report.checks.broken_count, 0);
    assert_eq!(report.checks.stale_docs, CheckOutcome::Pass);
    assert!(broken.is_empty());
}

#[test]
fn missing_security_hub_is_fatal() {
    let mut docs = hub_docs();
    docs.retain(|d| d.path != b"SECURITY.md".to_vec());
    docs.push(doc("guide.md", "See [[CONTEXT.md]].\n"));
    let err = audit(&docs).unwrap_err();
    assert_eq!(
        err,
        AuditError::MissingRequiredDocument(b"SECURITY.md".to_vec())
    );
}

#[test]
fn empty_tree_fails_with_first_missing_hub() {
    let docs: Vec<Doc> = Vec::new();
    let err = audit(&docs).unwrap_err();
    assert_eq!(
        err,
        AuditError::MissingRequiredDocument(b"HUB-DOCS.md".to_vec())
    );
}

#[test]
fn one_broken_link_scores_70_warning() {
    let mut docs = hub_docs();
    docs.push(doc("extra.md", "Start at [[missing-file.md]] please.\n"));
    let (report, broken) = audit(&docs).unwrap();
    assert_eq!(report.score, 70);
    assert_eq!(report.status, Status::Warning);
    assert_eq!(report.checks.inline_links, CheckOutcome::Pass);
    assert_eq!(report.checks.related_sections, CheckOutcome::Pass);
    assert_eq!(report.checks.broken_wikilinks, CheckOutcome::Fail);
    assert_eq!(report.checks.broken_count, 1);
    assert_eq!(broken.len(), 1);
    assert_eq!(broken[0].source, b"extra.md".to_vec());
    assert_eq!(broken[0].target, b"missing-file.md".to_vec());
}

#[test]
fn broken_link_and_no_inline_link_scores_45_critical() {
    let mut docs = hub_docs();
    docs.push(doc("extra.md", "## Related\n[[missing-file.md]]\n"));
    let (report, broken) = audit(&docs).unwrap();
    assert_eq!(report.score, 45);
    assert_eq!(report.status, Status::Critical);
    assert_eq!(report.checks.inline_links, CheckOutcome::Fail);
    assert_eq!(report.checks.broken_wikilinks, CheckOutcome::Fail);
    assert_eq!(broken.len(), 1);
}

#[test]
fn missing_related_heading_scores_80_warning() {
    let mut docs = hub_docs();
    // The last hub loses its heading; every hub still exists.
    docs[5] = doc("sprint/HUB-SPRINTS.md", "# Sprints, no related section\n");
    docs.push(doc("guide.md", "See [[CONTEXT.md]].\n"));
    let (report, _) = audit(&docs).unwrap();
    assert_eq!(report.checks.related_sections, CheckOutcome::Fail);
    assert_eq!(report.score, 80);
    assert_eq!(report.status, Status::Warning);
}

#[test]
fn no_inline_links_scores_75_warning() {
    let docs = hub_docs();
    let (report, _) = audit(&docs).unwrap();
    assert_eq!(report.checks.inline_links, CheckOutcome::Fail);
    assert_eq!(report.score, 75);
    assert_eq!(report.status, Status::Warning);
}

#[test]
fn stale_docs_score_90_healthy() {
    let mut docs = hub_docs();
    docs.push(doc("guide.md", "See [[CONTEXT.md]].\n"));
    docs.push(Doc {
        path: b"old.md".to_vec(),
        content: b"ancient\n".to_vec(),
        modified_secs: NOW - 46 * 24 * 60 * 60,
    });
    let (report, _) = audit(&docs).unwrap();
    assert_eq!(report.checks.stale_docs, CheckOutcome::Warn);
    assert_eq!(report.score, 90);
    assert_eq!(report.status, Status::Healthy);
}

#[test]
fn every_check_failing_scores_15_critical() {
    // Hubs exist but the first lacks its heading; a broken link sits after a
    // "## Related" heading; one document is stale.
    let mut docs = hub_docs();
    docs[0] = doc("HUB-DOCS.md", "# Hub index without the heading\n");
    docs.push(doc("extra.md", "## Related\n[[nowhere.md]]\n"));
    docs.push(Doc {
        path: b"old.md".to_vec(),
        content: b"ancient\n".to_vec(),
        modified_secs: 0,
    });
    let (report, broken) = audit(&docs).unwrap();
    assert_eq!(report.checks.inline_links, CheckOutcome::Fail);
    assert_eq!(report.checks.related_sections, CheckOutcome::Fail);
    assert_eq!(report.checks.broken_wikilinks, CheckOutcome::Fail);
    assert_eq!(report.checks.stale_docs, CheckOutcome::Warn);
    assert_eq!(report.score, 15);
    assert_eq!(report.status, Status::Critical);
    assert_eq!(broken.len(), 1);
}

#[test]
fn duplicate_broken_links_are_each_reported() {
    let mut docs = hub_docs();
    docs.push(doc(
        "extra.md",
        "[[x.md]] and [[x.md]] again, then [[y.md]].\n",
    ));
    let (report, broken) = audit(&docs).unwrap();
    assert_eq!(report.checks.broken_count, 3);
    assert_eq!(broken.len(), 3);
    assert_eq!(broken[0].source, b"extra.md".to_vec());
    assert_eq!(broken[0].target, b"x.md".to_vec());
    assert_eq!(broken[1].target, b"x.md".to_vec());
    assert_eq!(broken[2].target, b"y.md".to_vec());
}

#[test]
fn unchanged_tree_audits_identically() {
    let build = || {
        let mut docs = hub_docs();
        docs.push(doc("extra.md", "[[gone.md]] and [[CONTEXT.md]].\n"));
        docs
    };
    let first = audit(&build()).unwrap();
    let second = audit(&build()).unwrap();
    assert_eq!(first.0, second.0);
    assert_eq!(first.1, second.1);
}

#[test]
fn absent_heading_before_later_missing_hub_fails_softly() {
    // The hubs are scanned in order: the first offending hub decides. Here
    // HUB-DOCS.md exists but lacks its heading, while SECURITY.md is missing
    // entirely; the earlier soft failure wins over the later fatal one.
    let mut docs = hub_docs();
    docs[0] = doc("HUB-DOCS.md", "# No heading here\n");
    docs.retain(|d| d.path != b"SECURITY.md".to_vec());
    docs.push(doc("guide.md", "See [[CONTEXT.md]].\n"));
    let (report, _) = audit(&docs).unwrap();
    assert_eq!(report.checks.related_sections, CheckOutcome::Fail);
    assert_eq!(report.score, 80);
}

#[test]
fn default_required_hubs_list_the_six_policy_paths() {
    let hubs = default_required_hubs();
    let expected: Vec<Vec<u8>> = [
        "HUB-DOCS.md",
        "CONTEXT.md",
        "SECURITY.md",
        "QUALITY_GATES.md",
        "requirements/HUB-REQUIREMENTS.md",
        "sprint/HUB-SPRINTS.md",
    ]
    .iter()
    .map(|s| s.as_bytes().to_vec())
    .collect();
    assert_eq!(hubs, expected);
    assert_eq!(docs_prefix(), b"docs/".to_vec());
}

#[test]
fn clock_reads_a_plausible_epoch_time() {
    let t = openkit_doctor::clock::timestamp_secs();
    assert!(t > 1_000_000_000);
}
