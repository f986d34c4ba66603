//! The wikilink grammar: a link is written `[[target]]`, where the target is
//! one or more bytes none of which is a closing bracket. Links are collected
//! left to right without overlap, exactly as the scanner walks the text.

use vstd::prelude::*;
use crate::text::first_byte_from;
use crate::text::find_byte_from;
use crate::text::copy_range;
use crate::text::views_of;

verus! {

pub const LBRACK: u8 = 91;  // '['
pub const RBRACK: u8 = 93;  // ']'

/// Position of the first closing bracket at or after the would-be target
/// starting at `i + 2`.
pub open spec fn link_close(s: Seq<u8>, i: int) -> int {
    first_byte_from(s, RBRACK, i + 2)
}

/// A wikilink occurrence begins at `i`: two opening brackets, at least one
/// non-bracket target byte, and a doubled closing bracket right after the
/// target.
pub open spec fn link_starts_at(s: Seq<u8>, i: int) -> bool {
    let j = link_close(s, i);
    &&& 0 <= i
    &&& i + 1 < s.len()
    &&& s[i] == LBRACK
    &&& s[i + 1] == LBRACK
    &&& i + 2 < j
    &&& j + 1 < s.len()
    &&& s[j + 1] == RBRACK
}

/// The raw target of the wikilink occurrence beginning at `i`.
pub open spec fn link_target(s: Seq<u8>, i: int) -> Seq<u8> {
    s.subrange(i + 2, link_close(s, i))
}

/// The position just past the wikilink occurrence beginning at `i`.
pub open spec fn link_end(s: Seq<u8>, i: int) -> int {
    link_close(s, i) + 2
}

/// The raw targets of all wikilink occurrences at or after `i`, in textual
/// order, scanning left to right without overlap.
pub open spec fn links_from(s: Seq<u8>, i: int) -> Seq<Seq<u8>>
    decreases s.len() - i,
{
    if i < 0 || i >= s.len() {
        Seq::empty()
    } else if link_starts_at(s, i) {
        seq![link_target(s, i)] + links_from(s, link_end(s, i))
    } else {
        links_from(s, i + 1)
    }
}

/// The raw targets of all wikilink occurrences in `s`, in textual order.
pub open spec fn wikilinks(s: Seq<u8>) -> Seq<Seq<u8>> {
    links_from(s, 0)
}

/// Every wikilink target of `content`, in textual order.
pub fn extract_wikilinks(content: &Vec<u8>) -> (r: Vec<Vec<u8>>)
    ensures
        views_of(r@) == wikilinks(content@),
{
    let n = content.len();
    let mut out: Vec<Vec<u8>> = Vec::new();
    let mut i: usize = 0;
    proof {
        assert(views_of(out@) =~= Seq::<Seq<u8>>::empty());
        assert(views_of(out@) + links_from(content@, 0) =~= wikilinks(content@));
    }
    while i < n
        invariant
            n == content@.len(),
            i <= n,
            views_of(out@) + links_from(content@, i as int) == wikilinks(content@),
        decreases n - i,
    {
        let ghost s = content@;
        let mut advanced = false;
        if content[i] == LBRACK && i + 1 < n && content[i + 1] == LBRACK {
            let j = find_byte_from(content, RBRACK, i + 2);
            assert(j == link_close(s, i as int));
            if i + 2 < j && j < n - 1 && content[j + 1] == RBRACK {
                assert(link_starts_at(s, i as int));
                let target = copy_range(content, i + 2, j);
                proof {
                    assert(target@ == link_target(s, i as int));
                    assert(links_from(s, i as int) == seq![link_target(s, i as int)]
                        + links_from(s, link_end(s, i as int)));
                }
                let ghost old_out = out@;
                out.push(target);
                proof {
                    assert(views_of(out@) =~= views_of(old_out) + seq![target@]);
                    assert((views_of(old_out) + seq![target@]) + links_from(
                        s,
                        link_end(s, i as int),
                    ) =~= views_of(old_out) + (seq![target@] + links_from(
                        s,
                        link_end(s, i as int),
                    )));
                }
                i = j + 2;
                advanced = true;
            }
        }
        if !advanced {
            proof {
                assert(!link_starts_at(s, i as int));
                assert(links_from(s, i as int) == links_from(s, i as int + 1));
            }
            i += 1;
        }
    }
    out
}

} // verus!
