//! The inline-link check: the document set passes when at least one document
//! uses a wikilink *before* its first "## Related" heading — or anywhere, if
//! the document has no such heading. A link that appears only inside a
//! trailing references list does not prove contextual cross-referencing.

use vstd::prelude::*;
use crate::doc::Doc;
use crate::policy::related_heading;
use crate::policy::related_marker;
use crate::text::copy_range;
use crate::text::find_subslice;
use crate::text::first_match_from;
use crate::text::lemma_first_match_found;
use crate::text::lemma_first_match_none;
use crate::wikilink::wikilinks;

verus! {

/// How far into the document the scanner looks for an inline link: up to the
/// first "## Related" heading, or the whole text when there is none.
pub open spec fn inline_scan_limit(c: Seq<u8>) -> int {
    first_match_from(c, related_marker(), 0)
}

/// The document contains a wikilink within its inline-scan window.
pub open spec fn doc_has_inline_link(c: Seq<u8>) -> bool {
    wikilinks(c.take(inline_scan_limit(c))).len() > 0
}

/// At least one document of the set uses an inline wikilink.
pub open spec fn inline_links_ok(docs: Seq<Doc>) -> bool {
    exists|i: int| 0 <= i < docs.len() && doc_has_inline_link(docs[i].content@)
}

/// Does any document contain a wikilink before its first "## Related"
/// heading (or anywhere, when it has none)?
pub fn check_inline_links(docs: &Vec<Doc>) -> (r: bool)
    ensures
        r == inline_links_ok(docs@),
{
    let marker = related_heading();
    let n = docs.len();
    let mut i: usize = 0;
    while i < n
        invariant
            n == docs@.len(),
            i <= n,
            marker@ == related_marker(),
            forall|k: int| 0 <= k < i ==> !doc_has_inline_link(docs@[k].content@),
        decreases n - i,
    {
        let content = &docs[i].content;
        let limit: usize = match find_subslice(content, &marker) {
            Some(p) => {
                proof {
                    lemma_first_match_found(content@, related_marker(), 0, p as int);
                }
                p
            },
            None => {
                proof {
                    lemma_first_match_none(content@, related_marker(), 0);
                }
                content.len()
            },
        };
        assert(limit == inline_scan_limit(content@));
        let window = copy_range(content, 0, limit);
        let links = crate::wikilink::extract_wikilinks(&window);
        if links.len() > 0 {
            proof {
                assert(window@ == content@.take(inline_scan_limit(content@)));
                assert(crate::text::views_of(links@).len() == links@.len());
                assert(doc_has_inline_link(docs@[i as int].content@));
            }
            return true;
        }
        proof {
            assert(crate::text::views_of(links@).len() == links@.len());
            assert(!doc_has_inline_link(docs@[i as int].content@));
        }
        i += 1;
    }
    false
}

} // verus!
