//! The score aggregator: the four check outcomes reduce to a 0-100 score by
//! fixed, independent, flat deductions from a baseline of 100, and the score
//! maps to a status tier by fixed cutoffs. These magnitudes are policy:
//! downstream tooling keys on the exact values.

use vstd::prelude::*;
use crate::doc::AuditError;
use crate::doc::BrokenLink;
use crate::doc::CheckOutcome;
use crate::doc::Checks;
use crate::doc::Doc;
use crate::doc::DoctorReport;
use crate::doc::Status;
use crate::inline::check_inline_links;
use crate::inline::inline_links_ok;
use crate::related::check_related_sections;
use crate::related::first_bad_hub;
use crate::related::has_doc;
use crate::resolve::broken_links_spec;
use crate::resolve::broken_views;
use crate::resolve::broken_wikilinks;
use crate::stale::any_stale;
use crate::stale::stale_docs_status;
use crate::text::views_of;

verus! {

pub const REPORT_VERSION: u8 = 1;

pub const INLINE_LINKS_DEDUCTION: u8 = 25;

pub const RELATED_SECTIONS_DEDUCTION: u8 = 20;

pub const BROKEN_WIKILINKS_DEDUCTION: u8 = 30;

pub const STALE_DOCS_DEDUCTION: u8 = 10;

pub const HEALTHY_CUTOFF: u8 = 85;

pub const WARNING_CUTOFF: u8 = 70;

/// The total deduction for a given combination of check verdicts.
pub open spec fn deductions(
    inline_ok: bool,
    related_ok: bool,
    broken_any: bool,
    stale_warn: bool,
) -> int {
    (if !inline_ok {
        INLINE_LINKS_DEDUCTION as int
    } else {
        0
    }) + (if !related_ok {
        RELATED_SECTIONS_DEDUCTION as int
    } else {
        0
    }) + (if broken_any {
        BROKEN_WIKILINKS_DEDUCTION as int
    } else {
        0
    }) + (if stale_warn {
        STALE_DOCS_DEDUCTION as int
    } else {
        0
    })
}

/// Clamp to the inclusive score range [0, 100].
pub open spec fn clamp_score(x: int) -> int {
    if x < 0 {
        0
    } else if x > 100 {
        100
    } else {
        x
    }
}

/// The health score: 100 minus the deductions, clamped to [0, 100].
pub open spec fn score_of(
    inline_ok: bool,
    related_ok: bool,
    broken_any: bool,
    stale_warn: bool,
) -> int {
    clamp_score(100 - deductions(inline_ok, related_ok, broken_any, stale_warn))
}

/// The status tier of a score.
pub open spec fn status_of(score: int) -> Status {
    if score >= HEALTHY_CUTOFF as int {
        Status::Healthy
    } else if score >= WARNING_CUTOFF as int {
        Status::Warning
    } else {
        Status::Critical
    }
}

/// Run all four checks over the snapshot and aggregate them into a report.
///
/// `now_secs` is the wall-clock time the freshness check measures ages
/// against; `required` is the list of required hub paths; `prefix` is the
/// authoring prefix stripped from wikilink targets. On success the report
/// comes with the full broken-link list, whose length the report's
/// `broken_count` equals. The audit is all-or-nothing: a missing required
/// hub aborts it with `MissingRequiredDocument` and no report.
pub fn build_doctor_report(
    docs: &Vec<Doc>,
    now_secs: u64,
    required: &Vec<Vec<u8>>,
    prefix: &Vec<u8>,
) -> (r: Result<(DoctorReport, Vec<BrokenLink>), AuditError>)
    ensures
        ({
            let req = views_of(required@);
            let j = first_bad_hub(docs@, req);
            let inline_ok = inline_links_ok(docs@);
            let related_ok = crate::related::related_sections_ok(docs@, req);
            let broken = broken_links_spec(docs@, prefix@);
            let stale_warn = any_stale(docs@, now_secs);
            &&& 0 <= j <= req.len()
            &&& match r {
                Ok(res) => {
                    &&& (related_ok || has_doc(docs@, req[j]))
                    &&& res.0.version == REPORT_VERSION
                    &&& res.0.checks.inline_links == (if inline_ok {
                        CheckOutcome::Pass
                    } else {
                        CheckOutcome::Fail
                    })
                    &&& res.0.checks.related_sections == (if related_ok {
                        CheckOutcome::Pass
                    } else {
                        CheckOutcome::Fail
                    })
                    &&& broken_views(res.1@) == broken
                    &&& res.0.checks.broken_count == broken.len()
                    &&& res.0.checks.broken_wikilinks == (if broken.len() == 0 {
                        CheckOutcome::Pass
                    } else {
                        CheckOutcome::Fail
                    })
                    &&& res.0.checks.stale_docs == (if stale_warn {
                        CheckOutcome::Warn
                    } else {
                        CheckOutcome::Pass
                    })
                    &&& res.0.score == score_of(inline_ok, related_ok, broken.len() > 0, stale_warn)
                    &&& res.0.status == status_of(res.0.score as int)
                },
                Err(e) => {
                    &&& !related_ok
                    &&& !has_doc(docs@, req[j])
                    &&& (e matches AuditError::MissingRequiredDocument(p) && p@ == req[j])
                },
            }
        }),
{
    let ghost req = views_of(required@);
    let ghost j = first_bad_hub(docs@, req);
    let inline_ok = check_inline_links(docs);
    let related_ok = match check_related_sections(docs, required) {
        Ok(b) => b,
        Err(e) => {
            return Err(e);
        },
    };
    assert(related_ok == (j == req.len()));
    let broken = broken_wikilinks(docs, prefix);
    let broken_count = broken.len();
    assert(broken_count == broken_links_spec(docs@, prefix@).len()) by {
        assert(broken_views(broken@).len() == broken@.len());
    }
    let stale = stale_docs_status(docs, now_secs);
    let stale_warn = match stale {
        CheckOutcome::Warn => true,
        _ => false,
    };
    let mut score: u8 = 100;
    if !inline_ok {
        score -= INLINE_LINKS_DEDUCTION;
    }
    if !related_ok {
        score -= RELATED_SECTIONS_DEDUCTION;
    }
    if broken_count > 0 {
        score -= BROKEN_WIKILINKS_DEDUCTION;
    }
    if stale_warn {
        score -= STALE_DOCS_DEDUCTION;
    }
    assert(score == score_of(inline_ok, related_ok, broken_count > 0, stale_warn));
    let status = if score >= HEALTHY_CUTOFF {
        Status::Healthy
    } else if score >= WARNING_CUTOFF {
        Status::Warning
    } else {
        Status::Critical
    };
    let checks = Checks {
        inline_links: if inline_ok {
            CheckOutcome::Pass
        } else {
            CheckOutcome::Fail
        },
        related_sections: if related_ok {
            CheckOutcome::Pass
        } else {
            CheckOutcome::Fail
        },
        broken_wikilinks: if broken_count == 0 {
            CheckOutcome::Pass
        } else {
            CheckOutcome::Fail
        },
        broken_count,
        stale_docs: stale,
    };
    Ok((DoctorReport { version: REPORT_VERSION, score, status, checks }, broken))
}

/// A document set with no documents at all cannot satisfy the
/// related-sections check: its first required hub is already missing, so the
/// audit aborts with `MissingRequiredDocument` for that path rather than
/// producing a report.
pub proof fn lemma_empty_set_missing_hub(docs: Seq<Doc>, required: Seq<Seq<u8>>)
    requires
        docs.len() == 0,
        required.len() > 0,
    ensures
        first_bad_hub(docs, required) == 0,
        !has_doc(docs, required[0]),
{
    assert(!has_doc(docs, required[0]));
    assert(!crate::related::hub_ok(docs, required[0]));
}

/// The audit is a pure function of the document snapshot and its policy
/// inputs: two runs over the same snapshot agree on every check verdict, on
/// the ordered broken-link list, and hence on the score — an unchanged tree
/// always yields an identical report.
pub proof fn lemma_audit_deterministic(
    docs1: Seq<Doc>,
    docs2: Seq<Doc>,
    now: u64,
    required: Seq<Seq<u8>>,
    prefix: Seq<u8>,
)
    requires
        docs1 == docs2,
    ensures
        inline_links_ok(docs1) == inline_links_ok(docs2),
        first_bad_hub(docs1, required) == first_bad_hub(docs2, required),
        broken_links_spec(docs1, prefix) == broken_links_spec(docs2, prefix),
        any_stale(docs1, now) == any_stale(docs2, now),
{
}

/// Flipping any single check from passing to failing lowers the score by
/// exactly that check's fixed deduction — in particular it never raises it.
/// The deductions are flat and independent: no combination interacts.
pub proof fn lemma_score_deductions(
    inline_ok: bool,
    related_ok: bool,
    broken_any: bool,
    stale_warn: bool,
)
    ensures
        score_of(false, related_ok, broken_any, stale_warn) == score_of(
            true,
            related_ok,
            broken_any,
            stale_warn,
        ) - INLINE_LINKS_DEDUCTION,
        score_of(inline_ok, false, broken_any, stale_warn) == score_of(
            inline_ok,
            true,
            broken_any,
            stale_warn,
        ) - RELATED_SECTIONS_DEDUCTION,
        score_of(inline_ok, related_ok, true, stale_warn) == score_of(
            inline_ok,
            related_ok,
            false,
            stale_warn,
        ) - BROKEN_WIKILINKS_DEDUCTION,
        score_of(inline_ok, related_ok, broken_any, true) == score_of(
            inline_ok,
            related_ok,
            broken_any,
            false,
        ) - STALE_DOCS_DEDUCTION,
{
}

/// The score always lies in the inclusive range [0, 100]; with the stock
/// deductions the worst case is 100 - 85 = 15, so the clamp never triggers.
pub proof fn lemma_score_bounds(
    inline_ok: bool,
    related_ok: bool,
    broken_any: bool,
    stale_warn: bool,
)
    ensures
        15 <= score_of(inline_ok, related_ok, broken_any, stale_warn) <= 100,
{
}

} // verus!
