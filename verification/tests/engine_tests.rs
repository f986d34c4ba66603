//! Unit tests of the engine's pieces: the wikilink grammar, target
//! resolution, the inline-link window, the related-sections walk, and the
//! freshness boundary.

use openkit_doctor::doc::{CheckOutcome, Doc};
use openkit_doctor::inline::check_inline_links;
use openkit_doctor::policy::docs_prefix;
use openkit_doctor::resolve::{broken_wikilinks, target_of};
use openkit_doctor::stale::stale_docs_status;
use openkit_doctor::text::{normalize_separators, strip_prefix_once, trim_bytes};
use openkit_doctor::wikilink::extract_wikilinks;

const NOW: u64 = 1_700_000_000;

fn doc(path: &str, content: &str) -> Doc {
    Doc {
        path: path.as_bytes().to_vec(),
        content: content.as_bytes().to_vec(),
        modified_secs: NOW,
    }
}

fn links_of(text: &str) -> Vec<Vec<u8>> {
    extract_wikilinks(&text.as_bytes().to_vec())
}

#[test]
fn extracts_targets_in_textual_order() {
    let links = links_of("go [[a.md]] then [[b.md#sec]] end");
    assert_eq!(links, vec![b"a.md".to_vec(), b"b.md#sec".to_vec()]);
}

#[test]
fn empty_double_brackets_are_no_link() {
    assert!(links_of("[[]]").is_empty());
    assert!(links_of("[] [ ]]").is_empty());
    assert!(links_of("").is_empty());
}

#[test]
fn unclosed_or_half_closed_brackets_are_no_link() {
    assert!(links_of("[[a.md]").is_empty());
    assert!(links_of("[[a]b]]").is_empty());
    assert!(links_of("[[a.md").is_empty());
}

#[test]
fn extra_opening_brackets_join_the_target() {
    assert_eq!(links_of("[[[a]]"), vec![b"[a".to_vec()]);
    assert_eq!(links_of("[[a [[b]]"), vec![b"a [[b".to_vec()]);
}

#[test]
fn scanning_resumes_after_each_link() {
    assert_eq!(
        links_of("[[a]][[b]]"),
        vec![b"a".to_vec(), b"b".to_vec()]
    );
    // The first candidate fails (no doubled close), the second succeeds.
    assert_eq!(links_of("[[a]x[[b]]"), vec![b"b".to_vec()]);
}

#[test]
fn target_resolution_drops_fragment_and_trims() {
    assert_eq!(target_of(&b"a.md#top".to_vec()), b"a.md".to_vec());
    assert_eq!(target_of(&b"  a.md  ".to_vec()), b"a.md".to_vec());
    assert_eq!(target_of(&b" spaced.md #x".to_vec()), b"spaced.md".to_vec());
    assert_eq!(target_of(&b"   ".to_vec()), b"".to_vec());
    assert_eq!(target_of(&b"#only-fragment".to_vec()), b"".to_vec());
}

#[test]
fn text_helpers_normalize_and_strip() {
    assert_eq!(
        normalize_separators(&b"sub\\dir\\x.md".to_vec()),
        b"sub/dir/x.md".to_vec()
    );
    assert_eq!(trim_bytes(&b"\t a b \n".to_vec()), b"a b".to_vec());
    assert_eq!(
        strip_prefix_once(&b"docs/x.md".to_vec(), &docs_prefix()),
        b"x.md".to_vec()
    );
    assert_eq!(
        strip_prefix_once(&b"docs/docs/x.md".to_vec(), &docs_prefix()),
        b"docs/x.md".to_vec()
    );
    assert_eq!(
        strip_prefix_once(&b"other/x.md".to_vec(), &docs_prefix()),
        b"other/x.md".to_vec()
    );
}

fn broken_of(docs: &Vec<Doc>) -> Vec<(Vec<u8>, Vec<u8>)> {
    broken_wikilinks(docs, &docs_prefix())
        .into_iter()
        .map(|b| (b.source, b.target))
        .collect()
}

#[test]
fn resolvable_links_are_not_reported() {
    let docs = vec![
        doc("a.md", "see [[b.md]] and [[b.md#sec]] and [[docs/b.md]]"),
        doc("b.md", "plain"),
    ];
    assert!(broken_of(&docs).is_empty());
}

#[test]
fn unresolvable_link_is_reported_once_per_occurrence() {
    let docs = vec![doc("a.md", "[[gone.md]] and [[gone.md]]")];
    let broken = broken_of(&docs);
    assert_eq!(
        broken,
        vec![
            (b"a.md".to_vec(), b"gone.md".to_vec()),
            (b"a.md".to_vec(), b"gone.md".to_vec()),
        ]
    );
}

#[test]
fn empty_and_fragment_only_targets_are_skipped() {
    let docs = vec![doc("a.md", "[[  ]] [[#frag]] [[ #frag ]]")];
    assert!(broken_of(&docs).is_empty());
}

#[test]
fn reported_target_keeps_its_authored_prefix() {
    // The prefix is stripped for resolution only; the report shows the
    // target as authored (trimmed, fragment removed).
    let docs = vec![doc("a.md", "[[docs/docs/x.md]]")];
    let broken = broken_of(&docs);
    assert_eq!(
        broken,
        vec![(b"a.md".to_vec(), b"docs/docs/x.md".to_vec())]
    );
}

#[test]
fn windows_separators_resolve_against_normalized_paths() {
    let docs = vec![
        doc("a.md", "[[sub/x.md]]"),
        doc("sub\\x.md", "content"),
    ];
    assert!(broken_of(&docs).is_empty());
}

#[test]
fn discovery_order_is_document_order_then_textual_order() {
    let docs = vec![
        doc("a.md", "[[one.md]] then [[two.md]]"),
        doc("b.md", "[[three.md]]"),
    ];
    let broken = broken_of(&docs);
    assert_eq!(
        broken,
        vec![
            (b"a.md".to_vec(), b"one.md".to_vec()),
            (b"a.md".to_vec(), b"two.md".to_vec()),
            (b"b.md".to_vec(), b"three.md".to_vec()),
        ]
    );
}

#[test]
fn inline_link_counts_only_before_related_heading() {
    let before = vec![doc("a.md", "[[x.md]]\n## Related\n")];
    assert!(check_inline_links(&before));
    let after = vec![doc("a.md", "## Related\n[[x.md]]\n")];
    assert!(!check_inline_links(&after));
}

#[test]
fn inline_link_anywhere_counts_without_heading() {
    let docs = vec![doc("a.md", "tail link [[x.md]] at the end")];
    assert!(check_inline_links(&docs));
}

#[test]
fn heading_match_is_case_sensitive_and_literal() {
    // "## related" is not the marker, so the whole document is scanned.
    let docs = vec![doc("a.md", "## related\n[[x.md]]\n")];
    assert!(check_inline_links(&docs));
    // A broken candidate never satisfies the check when no doc has a link.
    assert!(!check_inline_links(&vec![doc("a.md", "no links here")]));
}

#[test]
fn staleness_boundary_is_strictly_more_than_45_days() {
    let threshold: u64 = 60 * 60 * 24 * 45;
    let at = vec![Doc {
        path: b"a.md".to_vec(),
        content: Vec::new(),
        modified_secs: NOW - threshold,
    }];
    assert_eq!(stale_docs_status(&at, NOW), CheckOutcome::Pass);
    let over = vec![Doc {
        path: b"a.md".to_vec(),
        content: Vec::new(),
        modified_secs: NOW - threshold - 1,
    }];
    assert_eq!(stale_docs_status(&over, NOW), CheckOutcome::Warn);
}

#[test]
fn future_modification_time_is_never_stale() {
    let docs = vec![Doc {
        path: b"a.md".to_vec(),
        content: Vec::new(),
        modified_secs: NOW + 1_000_000,
    }];
    assert_eq!(stale_docs_status(&docs, NOW), CheckOutcome::Pass);
    assert_eq!(stale_docs_status(&Vec::new(), NOW), CheckOutcome::Pass);
}
